//! Form input and the decisions of the web requests.

use rand::Rng;
use vstd::prelude::*;
use vstd::arithmetic::power::pow;

use crate::error::{MATError, Status};
use crate::row::{row_name, MATRow};
use crate::text::push_char;

pub mod alias;
pub mod domain;
pub mod user;

verus! {

/// The digit of value `d` (0 to 31) in the alphabet
/// `abcdefghijklmnopqrstuvwxyz234567`.
pub open spec fn b32_char(d: int) -> char {
    if d < 26 {
        (97 + d) as char
    } else {
        (50 + d - 26) as char
    }
}

/// The value of a digit of that alphabet.
pub open spec fn b32_value(c: char) -> int {
    if 97 <= c as int && c as int <= 122 {
        c as int - 97
    } else {
        c as int - 50 + 26
    }
}

/// The `count` lowest base-32 digits of `n`, least significant first.
pub open spec fn b32_digits(n: nat, count: nat) -> Seq<char>
    decreases count,
{
    if count == 0 {
        Seq::<char>::empty()
    } else {
        seq![b32_char((n % 32) as int)] + b32_digits(n / 32, (count - 1) as nat)
    }
}

/// The number that digits written least significant first stand for.
pub open spec fn b32_number(s: Seq<char>) -> int
    decreases s.len(),
{
    if s.len() == 0 {
        0
    } else {
        b32_value(s[0]) + 32 * b32_number(s.drop_first())
    }
}

/// How many digits `base32` writes: as many whole 5-bit groups as a `usize`
/// holds.
pub open spec fn b32_width() -> nat {
    if usize::BITS == 64 {
        12
    } else {
        6
    }
}

fn b32_digit(d: usize) -> (c: char)
    requires
        d < 32,
    ensures
        c == b32_char(d as int),
{
    if d < 26 {
        let b: u8 = 97 + d as u8;
        b as char
    } else {
        let b: u8 = 50 + (d - 26) as u8;
        b as char
    }
}

/// Writes the low 5-bit groups of `number` in base 32, least significant
/// first, without padding: 12 digits where `usize` has 64 bits, 6 where it
/// has 32.
pub fn base32(number: usize) -> (s: String)
    ensures
        s@ == b32_digits(number as nat, b32_width()),
{
    let mut ret = String::new();
    let count: usize = if usize::BITS == 64 { 12 } else { 6 };
    let mut number = number;
    let ghost original = number as nat;
    let mut i: usize = 0;
    while i < count
        invariant
            count == b32_width(),
            i <= count,
            ret@ + b32_digits(number as nat, (count - i) as nat) == b32_digits(original, count as nat),
        decreases count - i,
    {
        let tmp = number % 32;
        let ghost before = number;
        assert(number >> 5 == number / 32) by (bit_vector);
        number = number >> 5;
        push_char(&mut ret, b32_digit(tmp));
        assert(ret@ + b32_digits(number as nat, (count - i - 1) as nat) =~= ret@.drop_last() + b32_digits(before as nat, (count - i) as nat));
        i = i + 1;
    }
    assert(ret@ + b32_digits(number as nat, 0) =~= ret@);
    ret
}

/// A random number from `rand::thread_rng().gen()`. Nothing is stated of
/// it: any `usize` may come back.
#[verifier::external_body]
fn random_number() -> usize {
    rand::thread_rng().gen()
}

/// Two random names for a new alias: two random numbers, each written in
/// base 32 by `base32`.
pub fn generate_random_b32_string() -> (r: (String, String))
    ensures
        exists|left: usize, right: usize|
            r.0@ == b32_digits(left as nat, b32_width()) && r.1@ == b32_digits(
                right as nat,
                b32_width(),
            ),
{
    let left = random_number();
    let right = random_number();
    let l = base32(left);
    let r = base32(right);
    assert(l@ == b32_digits(left as nat, b32_width()) && r@ == b32_digits(right as nat, b32_width()));
    (l, r)
}

/// The digits are those of the alphabet `abcdefghijklmnopqrstuvwxyz234567`,
/// in order: the letters for 0 to 25, then the figures 2 to 7; each digit
/// of `base32`'s text is the value of one 5-bit group, the lowest first.
pub proof fn lemma_b32_alphabet(n: nat, count: nat)
    ensures
        forall|d: int| 0 <= d < 26 ==> #[trigger] b32_char(d) as int == 'a' as int + d,
        forall|d: int| 26 <= d < 32 ==> #[trigger] b32_char(d) as int == '2' as int + (d - 26),
        usize::BITS == 64 ==> b32_width() == 12,
        usize::BITS != 64 ==> b32_width() == 6,
        b32_digits(n, count).len() == count,
        forall|k: int| 0 <= k < count ==> #[trigger] b32_digits(n, count)[k] == b32_char(
            ((n as int / pow(32, k as nat)) % 32),
        ),
    decreases count,
{
    assert forall|d: int| 0 <= d < 26 implies #[trigger] b32_char(d) as int == 'a' as int + d by {}
    assert forall|d: int| 26 <= d < 32 implies #[trigger] b32_char(d) as int == '2' as int + (d - 26) by {}
    if count > 0 {
        lemma_b32_alphabet(n / 32, (count - 1) as nat);
        let s = b32_digits(n, count);
        let t = b32_digits(n / 32, (count - 1) as nat);
        assert forall|k: int| 0 <= k < count implies #[trigger] s[k] == b32_char(((n as int / pow(32, k as nat)) % 32)) by {
            assert(pow(32, 0) == 1) by { reveal(pow); }
            if k > 0 {
                assert(s[k] == t[k - 1]);
                assert(pow(32, k as nat) == 32 * pow(32, (k - 1) as nat)) by { reveal(pow); }
                vstd::arithmetic::power::lemma_pow_positive(32, (k - 1) as nat);
                vstd::arithmetic::div_mod::lemma_div_denominator(n as int, 32, pow(32, (k - 1) as nat));
            }
        }
    }
}

/// Reading the digits back gives the number modulo `32` to the power of
/// their count.
pub proof fn lemma_b32_digits_value(n: nat, count: nat)
    ensures
        b32_number(b32_digits(n, count)) == (n as int) % pow(32, count),
    decreases count,
{
    vstd::arithmetic::power::lemma_pow_positive(32, count);
    if count == 0 {
        assert(pow(32, 0) == 1) by { reveal(pow); }
    } else {
        let s = b32_digits(n, count);
        lemma_b32_digits_value(n / 32, (count - 1) as nat);
        assert(s.drop_first() =~= b32_digits(n / 32, (count - 1) as nat));
        let d = (n % 32) as int;
        assert(b32_value(b32_char(d)) == d);
        vstd::arithmetic::power::lemma_pow_positive(32, (count - 1) as nat);
        assert(pow(32, count) == 32 * pow(32, (count - 1) as nat)) by { reveal(pow); }
        vstd::arithmetic::div_mod::lemma_mod_breakdown(n as int, 32, pow(32, (count - 1) as nat));
    }
}

/// `base32` loses nothing below its width: two numbers under `32` to the
/// power of the digit count are written alike only when they are equal.
pub proof fn lemma_base32_injective(a: nat, b: nat)
    requires
        a < pow(32, b32_width()),
        b < pow(32, b32_width()),
        b32_digits(a, b32_width()) == b32_digits(b, b32_width()),
    ensures
        a == b,
{
    lemma_b32_digits_value(a, b32_width());
    lemma_b32_digits_value(b, b32_width());
    vstd::arithmetic::div_mod::lemma_small_mod(a, pow(32, b32_width()) as nat);
    vstd::arithmetic::div_mod::lemma_small_mod(b, pow(32, b32_width()) as nat);
}

/// The answer to a request that adds a row: a conflict when the row could
/// not be added, else the row's name followed by ` added in base !`.
pub fn added_reply(inserted: bool, row: &MATRow) -> (r: Result<String, Status>)
    ensures
        !inserted ==> r == Err::<String, Status>(Status { code: 409 }),
        inserted ==> (r matches Ok(t) && t@ == row_name(*row) + " added in base !"@),
{
    if !inserted {
        return Err(MATError::DBAlreadyIn.to_status());
    }
    let mut text = row.name();
    text.append(" added in base !");
    Ok(text)
}

/// Echoes the body of a request back.
pub fn index_post(args: String) -> (r: String)
    ensures
        r == args,
{
    args
}

} // verus!
