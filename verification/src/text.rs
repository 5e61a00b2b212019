//! Text helpers shared by the request builders: decimal rendering of
//! integers, quoting, and character-level access to strings.

use vstd::prelude::*;

verus! {

/// The character of the decimal digit `d` (0 to 9).
pub open spec fn digit_char(d: int) -> char {
    (48 + d) as char
}

/// The decimal digits of `n`, most significant first, without leading zeros
/// (zero itself is the single digit `0`).
pub open spec fn nat_digits(n: nat) -> Seq<char>
    decreases n,
{
    if n < 10 {
        seq![digit_char(n as int)]
    } else {
        nat_digits(n / 10).push(digit_char((n % 10) as int))
    }
}

/// The decimal text of `i`, with a leading `-` when it is negative: what
/// `format!("{}", i)` writes for an integer.
pub open spec fn int_text(i: int) -> Seq<char> {
    if i < 0 {
        seq!['-'] + nat_digits((-i) as nat)
    } else {
        nat_digits(i as nat)
    }
}


/// The number that decimal digits, most significant first, stand for.
pub open spec fn decimal_value(s: Seq<char>) -> int
    decreases s.len(),
{
    if s.len() == 0 {
        0
    } else {
        decimal_value(s.drop_last()) * 10 + (s.last() as int - 48)
    }
}

/// Decimal text is right: every character is a digit, there is no leading
/// zero (zero is the single digit `0`), and the digits stand for the
/// number.
pub proof fn lemma_decimal_digits(n: nat)
    ensures
        forall|k: int| 0 <= k < nat_digits(n).len() ==> 48 <= #[trigger] nat_digits(n)[k] as int <= 57,
        nat_digits(n).len() >= 1,
        nat_digits(n).len() > 1 ==> nat_digits(n)[0] != '0',
        decimal_value(nat_digits(n)) == n,
    decreases n,
{
    if n >= 10 {
        lemma_decimal_digits(n / 10);
        let d = nat_digits(n);
        let p = nat_digits(n / 10);
        let m = (n % 10) as int;
        assert(d == p.push(digit_char(m)));
        assert(digit_char(m) as int == 48 + m);
        assert(d.drop_last() =~= p);
        assert forall|k: int| 0 <= k < d.len() implies 48 <= #[trigger] d[k] as int <= 57 by {
            if k < p.len() {
                assert(d[k] == p[k]);
            }
        }
        assert(d[0] == p[0]);
        if n / 10 < 10 {
            assert(p[0] == digit_char((n / 10) as int));
            assert(digit_char((n / 10) as int) as int == 48 + n / 10);
        } else {
            lemma_decimal_digits(n / 10 / 10);
            assert(p.len() >= 2);
        }
        assert((n / 10) * 10 + n % 10 == n) by (nonlinear_arith);
        assert(decimal_value(d) == decimal_value(p) * 10 + m);
    } else {
        let d = nat_digits(n);
        assert(d == seq![digit_char(n as int)]);
        assert(digit_char(n as int) as int == 48 + n);
        assert(d.drop_last() =~= Seq::<char>::empty());
        assert(decimal_value(d) == decimal_value(d.drop_last()) * 10 + (d.last() as int - 48));
    }
}

/// The decimal text of an integer: its digits, after a `-` when it is
/// negative.
pub proof fn lemma_decimal_text(i: int)
    ensures
        i >= 0 ==> int_text(i) == nat_digits(i as nat),
        i < 0 ==> int_text(i).len() >= 2 && int_text(i)[0] == '-' && int_text(i).drop_first()
            == nat_digits((-i) as nat),
{
    if i < 0 {
        lemma_decimal_digits((-i) as nat);
        assert(int_text(i).drop_first() =~= nat_digits((-i) as nat));
    }
}

/// Appends one character to a string: `String::push`.
#[verifier::external_body]
pub(crate) fn push_char(s: &mut String, c: char)
    ensures
        final(s)@ == old(s)@.push(c),
{
    s.push(c)
}

fn digit(d: u64) -> (c: char)
    requires
        d < 10,
    ensures
        c == digit_char(d as int),
{
    let b: u8 = 48 + d as u8;
    b as char
}

/// Renders `n` in decimal.
pub fn nat_to_string(n: u64) -> (s: String)
    ensures
        s@ == nat_digits(n as nat),
    decreases n,
{
    if n < 10 {
        let mut s = String::new();
        push_char(&mut s, digit(n));
        s
    } else {
        let mut s = nat_to_string(n / 10);
        push_char(&mut s, digit(n % 10));
        s
    }
}

/// Renders `i` in decimal, as `format!("{}", i)` does.
pub fn int_to_string(i: i32) -> (s: String)
    ensures
        s@ == int_text(i as int),
{
    let wide: i64 = i as i64;
    if wide < 0 {
        let digits = nat_to_string((0 - wide) as u64);
        let mut s = String::new();
        push_char(&mut s, '-');
        s.append(digits.as_str());
        assert(s@ == seq!['-'] + digits@);
        s
    } else {
        nat_to_string(wide as u64)
    }
}

/// The pieces of `s` between occurrences of `sep`, as `str::split` yields
/// them: `k` separators give `k + 1` pieces, each possibly empty.
pub open spec fn split_on(s: Seq<char>, sep: char) -> Seq<Seq<char>>
    decreases s.len(),
{
    if s.len() == 0 {
        seq![Seq::<char>::empty()]
    } else {
        let pieces = split_on(s.drop_last(), sep);
        if s.last() == sep {
            pieces.push(Seq::<char>::empty())
        } else {
            pieces.update(pieces.len() - 1, pieces.last().push(s.last()))
        }
    }
}

/// The pieces joined back together with `sep` between consecutive ones.
pub open spec fn join_with(pieces: Seq<Seq<char>>, sep: char) -> Seq<char>
    decreases pieces.len(),
{
    if pieces.len() == 0 {
        Seq::<char>::empty()
    } else if pieces.len() == 1 {
        pieces[0]
    } else {
        join_with(pieces.drop_last(), sep).push(sep) + pieces.last()
    }
}

/// The contents of a sequence of strings.
pub open spec fn views(v: Seq<String>) -> Seq<Seq<char>> {
    v.map_values(|x: String| x@)
}

/// Splitting never yields an empty list of pieces.
pub proof fn lemma_split_nonempty(s: Seq<char>, sep: char)
    ensures
        split_on(s, sep).len() >= 1,
    decreases s.len(),
{
    if s.len() > 0 {
        lemma_split_nonempty(s.drop_last(), sep);
    }
}

/// A text without the separator is a single piece.
pub proof fn lemma_split_without_sep(s: Seq<char>, sep: char)
    requires
        !s.contains(sep),
    ensures
        split_on(s, sep) == seq![s],
    decreases s.len(),
{
    if s.len() == 0 {
        assert(s =~= Seq::<char>::empty());
        assert(split_on(s, sep) =~= seq![s]);
    } else {
        assert(!s.drop_last().contains(sep)) by {
            if s.drop_last().contains(sep) {
                let k = choose|k: int| 0 <= k < s.drop_last().len() && s.drop_last()[k] == sep;
                assert(s[k] == sep);
            }
        }
        lemma_split_without_sep(s.drop_last(), sep);
        assert(s.last() != sep) by {
            assert(s[s.len() - 1] == s.last());
        }
        assert(s.drop_last().push(s.last()) =~= s);
        let p = split_on(s.drop_last(), sep);
        assert(p.len() == 1 && p.last() == s.drop_last());
        assert(split_on(s, sep) == p.update(0, p.last().push(s.last())));
        assert(split_on(s, sep) =~= seq![s]);
    }
}

/// Appending text without the separator lengthens the last piece.
pub proof fn lemma_split_extend(a: Seq<char>, b: Seq<char>, sep: char)
    requires
        !b.contains(sep),
    ensures
        split_on(a + b, sep) == split_on(a, sep).update(
            split_on(a, sep).len() - 1,
            split_on(a, sep).last() + b,
        ),
    decreases b.len(),
{
    lemma_split_nonempty(a, sep);
    if b.len() == 0 {
        assert(a + b =~= a);
        assert(split_on(a, sep).last() + b =~= split_on(a, sep).last());
        assert(split_on(a, sep).update(split_on(a, sep).len() - 1, split_on(a, sep).last() + b)
            =~= split_on(a, sep));
    } else {
        let b0 = b.drop_last();
        assert(!b0.contains(sep)) by {
            if b0.contains(sep) {
                let k = choose|k: int| 0 <= k < b0.len() && b0[k] == sep;
                assert(b[k] == sep);
            }
        }
        assert(b.last() != sep) by {
            assert(b[b.len() - 1] == b.last());
        }
        lemma_split_extend(a, b0, sep);
        assert((a + b).drop_last() =~= a + b0);
        assert((a + b).last() == b.last());
        lemma_split_nonempty(a + b0, sep);
        let p = split_on(a, sep);
        let q = split_on(a + b0, sep);
        assert(q == p.update(p.len() - 1, p.last() + b0));
        assert(q.len() == p.len());
        assert(q.last() == p.last() + b0);
        assert(split_on(a + b, sep) == q.update(q.len() - 1, q.last().push(b.last())));
        assert((p.last() + b0).push(b.last()) =~= p.last() + b);
        assert(split_on(a + b, sep) =~= p.update(p.len() - 1, p.last() + b));
    }
}

/// No piece of a split holds the separator.
pub proof fn lemma_split_pieces_without_sep(s: Seq<char>, sep: char)
    ensures
        forall|i: int| 0 <= i < split_on(s, sep).len() ==> !(#[trigger] split_on(s, sep)[i]).contains(sep),
    decreases s.len(),
{
    if s.len() > 0 {
        lemma_split_pieces_without_sep(s.drop_last(), sep);
        lemma_split_nonempty(s.drop_last(), sep);
        let p = split_on(s.drop_last(), sep);
        if s.last() != sep {
            let last = p.last().push(s.last());
            assert(!last.contains(sep)) by {
                if last.contains(sep) {
                    let k = choose|k: int| 0 <= k < last.len() && last[k] == sep;
                    if k < p.last().len() {
                        assert(p.last()[k] == sep);
                        assert(p[p.len() - 1] == p.last());
                    }
                }
            }
        }
        assert forall|i: int| 0 <= i < split_on(s, sep).len() implies !(#[trigger] split_on(s, sep)[i]).contains(sep) by {
            if i < p.len() - 1 {
                assert(split_on(s, sep)[i] == p[i]);
            } else if i == p.len() - 1 && s.last() == sep {
                assert(split_on(s, sep)[i] == p[i]);
            } else if s.last() == sep {
                assert(split_on(s, sep)[i] =~= Seq::<char>::empty());
            }
        }
    }
}

/// A character missing from a text is missing from each of its pieces.
pub proof fn lemma_split_pieces_without(s: Seq<char>, sep: char, c: char)
    requires
        !s.contains(c),
    ensures
        forall|i: int| 0 <= i < split_on(s, sep).len() ==> !(#[trigger] split_on(s, sep)[i]).contains(c),
    decreases s.len(),
{
    if s.len() > 0 {
        assert(!s.drop_last().contains(c)) by {
            if s.drop_last().contains(c) {
                let k = choose|k: int| 0 <= k < s.drop_last().len() && s.drop_last()[k] == c;
                assert(s[k] == c);
            }
        }
        assert(s.last() != c) by {
            assert(s[s.len() - 1] == s.last());
        }
        lemma_split_pieces_without(s.drop_last(), sep, c);
        lemma_split_nonempty(s.drop_last(), sep);
        let p = split_on(s.drop_last(), sep);
        assert(p[p.len() - 1] == p.last());
        if s.last() != sep {
            let last = p.last().push(s.last());
            assert(!last.contains(c)) by {
                if last.contains(c) {
                    let k = choose|k: int| 0 <= k < last.len() && last[k] == c;
                    if k < p.last().len() {
                        assert(p.last()[k] == c);
                    }
                }
            }
        }
        assert forall|i: int| 0 <= i < split_on(s, sep).len() implies !(#[trigger] split_on(s, sep)[i]).contains(c) by {
            if i < p.len() - 1 {
                assert(split_on(s, sep)[i] == p[i]);
            } else if i == p.len() - 1 && s.last() == sep {
                assert(split_on(s, sep)[i] == p[i]);
            } else if s.last() == sep {
                assert(split_on(s, sep)[i] =~= Seq::<char>::empty());
            }
        }
    }
}

/// Joining pieces that hold no separator, then splitting, gives the pieces
/// back.
pub proof fn lemma_split_join(pieces: Seq<Seq<char>>, sep: char)
    requires
        pieces.len() >= 1,
        forall|i: int| 0 <= i < pieces.len() ==> !(#[trigger] pieces[i]).contains(sep),
    ensures
        split_on(join_with(pieces, sep), sep) == pieces,
    decreases pieces.len(),
{
    if pieces.len() == 1 {
        assert(!pieces[0].contains(sep));
        lemma_split_without_sep(pieces[0], sep);
        assert(seq![pieces[0]] =~= pieces);
    } else {
        let front = pieces.drop_last();
        assert forall|i: int| 0 <= i < front.len() implies !(#[trigger] front[i]).contains(sep) by {
            assert(front[i] == pieces[i]);
        }
        lemma_split_join(front, sep);
        let j = join_with(front, sep);
        assert(pieces[pieces.len() - 1] == pieces.last());
        lemma_split_extend(j.push(sep), pieces.last(), sep);
        assert(j.push(sep).drop_last() =~= j);
        assert(split_on(j.push(sep), sep) == front.push(Seq::<char>::empty()));
        assert(Seq::<char>::empty() + pieces.last() =~= pieces.last());
        assert(split_on(join_with(pieces, sep), sep) =~= pieces);
    }
}

/// A character found in no piece, other than the separator, is not in
/// their join either.
pub proof fn lemma_join_without(pieces: Seq<Seq<char>>, sep: char, c: char)
    requires
        c != sep,
        forall|i: int| 0 <= i < pieces.len() ==> !(#[trigger] pieces[i]).contains(c),
    ensures
        !join_with(pieces, sep).contains(c),
    decreases pieces.len(),
{
    if pieces.len() == 1 {
        assert(!pieces[0].contains(c));
    } else if pieces.len() > 1 {
        let front = pieces.drop_last();
        assert forall|i: int| 0 <= i < front.len() implies !(#[trigger] front[i]).contains(c) by {
            assert(front[i] == pieces[i]);
        }
        lemma_join_without(front, sep, c);
        let j = join_with(pieces, sep);
        let a = join_with(front, sep).push(sep);
        assert(pieces[pieces.len() - 1] == pieces.last());
        assert(!pieces.last().contains(c));
        if j.contains(c) {
            let k = choose|k: int| 0 <= k < j.len() && j[k] == c;
            if k < a.len() - 1 {
                assert(join_with(front, sep)[k] == c);
            } else if k >= a.len() {
                assert(pieces.last()[k - a.len()] == c);
            }
        }
    }
}

/// Splitting, then joining with the same separator, gives the text back.
pub proof fn lemma_join_split(s: Seq<char>, sep: char)
    ensures
        join_with(split_on(s, sep), sep) == s,
    decreases s.len(),
{
    if s.len() == 0 {
        assert(split_on(s, sep) == seq![Seq::<char>::empty()]);
        assert(s =~= Seq::<char>::empty());
    } else {
        lemma_join_split(s.drop_last(), sep);
        lemma_split_nonempty(s.drop_last(), sep);
        let p = split_on(s.drop_last(), sep);
        let n = p.len();
        if s.last() == sep {
            let q = p.push(Seq::<char>::empty());
            assert(q.drop_last() =~= p);
            assert(join_with(q, sep) =~= join_with(p, sep).push(sep));
            assert(s.drop_last().push(sep) =~= s);
        } else {
            let x = p.last().push(s.last());
            let q = p.update(n - 1, x);
            assert(p[n - 1] == p.last());
            if n == 1 {
                assert(join_with(q, sep) == q[0]);
                assert(join_with(p, sep) == p[0]);
            } else {
                assert(q.drop_last() =~= p.drop_last());
                assert(join_with(q, sep) == join_with(q.drop_last(), sep).push(sep) + q.last());
                assert(join_with(p, sep) == join_with(p.drop_last(), sep).push(sep) + p.last());
                assert(join_with(q, sep) =~= join_with(p, sep).push(s.last()));
            }
            assert(s.drop_last().push(s.last()) =~= s);
            assert(join_with(q, sep) =~= s);
        }
    }
}

/// Joining the pieces equals joining the first `k` of them, a separator,
/// and joining the rest.
pub proof fn lemma_join_parts(p: Seq<Seq<char>>, sep: char, k: int)
    requires
        0 < k < p.len(),
    ensures
        join_with(p, sep) == join_with(p.take(k), sep).push(sep) + join_with(p.skip(k), sep),
    decreases p.len(),
{
    let dl = p.drop_last();
    assert(p[p.len() - 1] == p.last());
    if k == p.len() - 1 {
        assert(p.take(k) =~= dl);
        assert(p.skip(k) =~= seq![p.last()]);
    } else {
        lemma_join_parts(dl, sep, k);
        assert(dl.take(k) =~= p.take(k));
        let rest = p.skip(k);
        assert(rest.drop_last() =~= dl.skip(k));
        assert(rest.last() == p.last());
        assert(join_with(rest, sep) == join_with(rest.drop_last(), sep).push(sep) + rest.last());
        assert(join_with(p, sep) =~= join_with(p.take(k), sep).push(sep) + join_with(rest, sep));
    }
}

/// Splits `s` at every occurrence of `sep`.
pub fn split_at_char(s: &str, sep: char) -> (pieces: Vec<String>)
    ensures
        views(pieces@) == split_on(s@, sep),
{
    let n = s.unicode_len();
    let mut done: Vec<String> = Vec::new();
    let mut current = String::new();
    let mut i: usize = 0;
    proof {
        assert(s@.take(0) =~= Seq::<char>::empty());
        assert(views(done@).push(current@) =~= split_on(s@.take(0), sep));
    }
    while i < n
        invariant
            n == s@.len(),
            i <= n,
            views(done@).push(current@) == split_on(s@.take(i as int), sep),
        decreases n - i,
    {
        let c = s.get_char(i);
        let ghost before = s@.take(i as int);
        proof {
            lemma_split_nonempty(before, sep);
            assert(s@.take(i + 1).drop_last() =~= before);
        }
        if c == sep {
            done.push(current);
            current = String::new();
            assert(views(done@).push(current@) =~= split_on(s@.take(i + 1), sep));
        } else {
            push_char(&mut current, c);
            assert(views(done@).push(current@) =~= split_on(s@.take(i + 1), sep));
        }
        i = i + 1;
    }
    assert(s@.take(n as int) =~= s@);
    done.push(current);
    assert(views(done@) =~= split_on(s@, sep));
    done
}

} // verus!
