//! The domain field of the forms, and how it is cleaned: percent-decoded,
//! cut at the first `/`, and cut down to its last three labels.

use vstd::prelude::*;

use crate::error::{status_code, MATError, Status};
use crate::row::MATRow;
use crate::text::{
    join_with, lemma_join_parts, lemma_join_split, lemma_join_without, lemma_split_join, lemma_split_nonempty,
    lemma_split_pieces_without, lemma_split_pieces_without_sep, lemma_split_without_sep, push_char,
    split_at_char, split_on, views,
};

verus! {

/// What `urlencoding::decode` makes of a text: the percent-decoded text, or
/// nothing when the decoded bytes are not UTF-8.
pub uninterp spec fn url_decoded(s: Seq<char>) -> Option<Seq<char>>;

/// Calls `urlencoding::decode`. Its result is named `url_decoded`; the crate's
/// source also shows that a text with no `%` comes back unchanged.
#[verifier::external_body]
fn percent_decode(s: &str) -> (r: Option<String>)
    ensures
        match r {
            Some(t) => url_decoded(s@) == Some(t@),
            None => url_decoded(s@) is None,
        },
        !s@.contains('%') ==> (r is Some && r.unwrap()@ == s@),
{
    match urlencoding::decode(s) {
        Ok(text) => Some(text.into_owned()),
        Err(_) => None,
    }
}

/// The decoded text of a field: empty when decoding fails.
pub open spec fn decoded_field(s: Seq<char>) -> Seq<char> {
    match url_decoded(s) {
        Some(t) => t,
        None => Seq::<char>::empty(),
    }
}

/// What comes before the first `/`; an empty head is not an address.
pub open spec fn tail_cut(input: Seq<char>) -> Result<Seq<char>, MATError> {
    let head = split_on(input, '/')[0];
    if head.len() == 0 {
        Err(MATError::NotAnURI)
    } else {
        Ok(head)
    }
}

/// The label where the kept part of a dotted name starts: the first one of a
/// two-label name, else the third label from the end.
pub open spec fn first_kept_label(count: int) -> int {
    if count == 2 {
        0
    } else {
        count - 3
    }
}

/// Keeps at most the last three dot-separated labels. A name without a dot,
/// or whose first kept label is empty, is not an address.
pub open spec fn head_cut(input: Seq<char>) -> Result<Seq<char>, MATError> {
    let labels = split_on(input, '.');
    let count = labels.len() as int;
    let start = first_kept_label(count);
    if count < 2 {
        Err(MATError::NotAnURI)
    } else if labels[start].len() == 0 {
        Err(MATError::NotAnURI)
    } else {
        Ok(join_with(labels.subrange(start, count), '.'))
    }
}

/// What `tail_cut` keeps holds no `/`, and is kept whole by a second cut.
pub proof fn lemma_tail_cut_stable(input: Seq<char>)
    requires
        tail_cut(input) is Ok,
    ensures
        !tail_cut(input).unwrap().contains('/'),
        tail_cut(tail_cut(input).unwrap()) == tail_cut(input),
{
    lemma_split_nonempty(input, '/');
    lemma_split_pieces_without_sep(input, '/');
    let t = split_on(input, '/')[0];
    lemma_split_without_sep(t, '/');
}

/// What `head_cut` keeps has two or three labels, and is kept whole by a
/// second cut; it holds no character that the input did not hold, but for
/// dots.
pub proof fn lemma_head_cut_stable(input: Seq<char>, c: char)
    requires
        head_cut(input) is Ok,
        c != '.',
        !input.contains(c),
    ensures
        2 <= split_on(head_cut(input).unwrap(), '.').len() <= 3,
        head_cut(head_cut(input).unwrap()) == head_cut(input),
        !head_cut(input).unwrap().contains(c),
{
    let labels = split_on(input, '.');
    let count = labels.len() as int;
    let start = first_kept_label(count);
    let kept = labels.subrange(start, count);
    let d = join_with(kept, '.');
    lemma_split_pieces_without_sep(input, '.');
    lemma_split_pieces_without(input, '.', c);
    assert forall|i: int| 0 <= i < kept.len() implies !(#[trigger] kept[i]).contains('.') && !kept[i].contains(c) by {
        assert(kept[i] == labels[start + i]);
    }
    lemma_split_join(kept, '.');
    lemma_join_without(kept, '.', c);
    assert(kept.subrange(0, kept.len() as int) =~= kept);
    assert(kept[0] == labels[start]);
}

/// Cutting a domain a second time changes nothing: what `cut_tail` and
/// then `cut_head` keep holds no `/`, has two or three labels, and both
/// cuts keep it whole.
pub proof fn lemma_cuts_are_stable(input: Seq<char>)
    requires
        tail_cut(input) is Ok,
        head_cut(tail_cut(input).unwrap()) is Ok,
    ensures
        ({
            let d = head_cut(tail_cut(input).unwrap()).unwrap();
            &&& !d.contains('/')
            &&& 2 <= split_on(d, '.').len() <= 3
            &&& tail_cut(d) == Ok::<Seq<char>, MATError>(d)
            &&& head_cut(d) == Ok::<Seq<char>, MATError>(d)
        }),
{
    lemma_tail_cut_stable(input);
    let t = tail_cut(input).unwrap();
    lemma_head_cut_stable(t, '/');
    let d = head_cut(t).unwrap();
    assert(d.len() > 0) by {
        if d.len() == 0 {
            assert(d =~= Seq::<char>::empty());
        }
    }
    lemma_split_without_sep(d, '/');
}

/// Cleaning a second time changes nothing: the domain that cleaning keeps,
/// once it decodes to itself (as every domain without `%` does, which
/// `Domain::clean` states), is kept whole by the next cleaning.
pub proof fn lemma_clean_is_stable(field: Seq<char>)
    requires
        cleaned_domain(field) is Ok,
    ensures
        decoded_field(cleaned_domain(field).unwrap()) == cleaned_domain(field).unwrap()
            ==> cleaned_domain(cleaned_domain(field).unwrap()) == cleaned_domain(field),
        !cleaned_domain(field).unwrap().contains('/'),
        2 <= split_on(cleaned_domain(field).unwrap(), '.').len() <= 3,
{
    lemma_cuts_are_stable(decoded_field(field));
}

/// `cut_tail` keeps what comes before the first `/`: a non-empty start of
/// the input without `/`, followed in the input by a `/` or by nothing. It
/// refuses exactly the inputs that are empty or start with `/`.
pub proof fn lemma_tail_cut_is_head_before_slash(x: Seq<char>)
    ensures
        tail_cut(x) is Err <==> (x.len() == 0 || x[0] == '/'),
        tail_cut(x) is Ok ==> ({
            let d = tail_cut(x).unwrap();
            &&& d.len() > 0
            &&& d.len() <= x.len()
            &&& x.take(d.len() as int) == d
            &&& !d.contains('/')
            &&& (d.len() == x.len() || x[d.len() as int] == '/')
        }),
{
    let p = split_on(x, '/');
    lemma_split_nonempty(x, '/');
    lemma_split_pieces_without_sep(x, '/');
    lemma_join_split(x, '/');
    let h = p[0];
    assert(!h.contains('/'));
    if p.len() == 1 {
        assert(join_with(p, '/') == h);
        assert(x.take(h.len() as int) =~= h);
    } else {
        lemma_join_parts(p, '/', 1);
        assert(p.take(1) =~= seq![h]);
        let rest = join_with(p.skip(1), '/');
        assert(x =~= h.push('/') + rest);
        assert(x.take(h.len() as int) =~= h);
        assert(x[h.len() as int] == '/');
    }
    if h.len() > 0 {
        assert(x[0] == h[0]);
    } else if x.len() > 0 {
        assert(p.len() > 1) by {
            if p.len() == 1 {
                assert(x == h);
            }
        }
        assert(x[0] == '/');
    }
}

/// `cut_head` keeps the last labels of a dotted name: what it keeps ends
/// the input, starts with a non-empty label, and is the whole input when
/// that has two or three labels; a longer input loses whole labels up to a
/// dot, and three labels remain. A name without a dot is refused.
pub proof fn lemma_head_cut_keeps_last_labels(x: Seq<char>)
    ensures
        !x.contains('.') ==> head_cut(x) is Err,
        head_cut(x) is Ok ==> ({
            let d = head_cut(x).unwrap();
            let count = split_on(x, '.').len();
            &&& d.len() > 0 && d[0] != '.'
            &&& d.len() <= x.len()
            &&& x.skip(x.len() - d.len()) == d
            &&& count <= 3 ==> d == x
            &&& count > 3 ==> split_on(d, '.').len() == 3 && x[x.len() - d.len() - 1] == '.'
        }),
{
    if !x.contains('.') {
        lemma_split_without_sep(x, '.');
    }
    if head_cut(x) is Ok {
        let labels = split_on(x, '.');
        let count = labels.len() as int;
        let start = first_kept_label(count);
        let kept = labels.subrange(start, count);
        let d = join_with(kept, '.');
        lemma_join_split(x, '.');
        assert(kept[0] == labels[start]);
        lemma_split_nonempty(x, '.');
        lemma_split_pieces_without_sep(x, '.');
        assert forall|i: int| 0 <= i < kept.len() implies !(#[trigger] kept[i]).contains('.') by {
            assert(kept[i] == labels[start + i]);
        }
        lemma_split_join(kept, '.');
        assert(!kept[0].contains('.'));
        // the kept part starts with its first label
        if kept.len() == 1 {
            assert(d == kept[0]);
        } else {
            lemma_join_parts(kept, '.', 1);
            assert(kept.take(1) =~= seq![kept[0]]);
            assert(d[0] == kept[0][0]);
        }
        assert(kept[0][0] != '.') by {
            assert(kept[0].len() > 0);
            if kept[0][0] == '.' {
                assert(kept[0].contains('.'));
            }
        }
        if start == 0 {
            assert(kept =~= labels);
            assert(x.skip(0) =~= x);
        } else {
            lemma_join_parts(labels, '.', start);
            assert(labels.skip(start) =~= kept);
            let front = join_with(labels.take(start), '.');
            assert(x =~= front.push('.') + d);
            assert(x.skip(x.len() - d.len()) =~= d);
            assert(x[x.len() - d.len() - 1] == '.');
        }
    }
}

/// What cleaning makes of a domain field.
pub open spec fn cleaned_domain(field: Seq<char>) -> Result<Seq<char>, MATError> {
    let decoded = decoded_field(field);
    if decoded.len() == 0 {
        Err(MATError::URLEnconding)
    } else {
        match tail_cut(decoded) {
            Err(e) => Err(e),
            Ok(t) => head_cut(t),
        }
    }
}

/// A domain, as named in a form.
pub struct Domain {
    pub domain: String,
}

impl Domain {
    pub fn new(domain: String) -> (d: Domain)
        ensures
            d.domain == domain,
    {
        Domain { domain }
    }

    /// A copy of the domain name.
    pub fn domain(&self) -> (d: String)
        ensures
            d == self.domain,
    {
        self.domain.clone()
    }

    /// Percent-decodes a field; a field that does not decode becomes empty.
    pub fn decode_value(encoded: String) -> (d: String)
        ensures
            d@ == decoded_field(encoded@),
            !encoded@.contains('%') ==> d@ == encoded@,
    {
        match percent_decode(encoded.as_str()) {
            Some(t) => t,
            None => String::new(),
        }
    }

    /// Keeps at most the last three labels of a dotted name.
    pub fn cut_head(input: String) -> (r: Result<String, MATError>)
        ensures
            match head_cut(input@) {
                Ok(d) => r is Ok && r.unwrap()@ == d,
                Err(e) => r == Err::<String, MATError>(e),
            },
    {
        let labels = split_at_char(input.as_str(), '.');
        let ghost pieces = split_on(input@, '.');
        let count = labels.len();
        if count < 2 {
            return Err(MATError::NotAnURI);
        }
        let start: usize = if count == 2 { 0 } else { count - 3 };
        assert(views(labels@)[start as int] == labels@[start as int]@);
        if labels[start].as_str().is_empty() {
            return Err(MATError::NotAnURI);
        }
        let mut domain = labels[start].clone();
        let mut k: usize = start + 1;
        assert(pieces.subrange(start as int, k as int) =~= seq![pieces[start as int]]);
        while k < count
            invariant
                pieces == views(labels@),
                count == labels@.len(),
                start < k <= count,
                domain@ == join_with(pieces.subrange(start as int, k as int), '.'),
            decreases count - k,
        {
            push_char(&mut domain, '.');
            domain.append(labels[k].as_str());
            assert(pieces.subrange(start as int, k + 1).drop_last() =~= pieces.subrange(
                start as int,
                k as int,
            ));
            assert(views(labels@)[k as int] == labels@[k as int]@);
            k = k + 1;
        }
        Ok(domain)
    }

    /// Keeps what comes before the first `/`.
    pub fn cut_tail(input: String) -> (r: Result<String, MATError>)
        ensures
            match tail_cut(input@) {
                Ok(d) => r is Ok && r.unwrap()@ == d,
                Err(e) => r == Err::<String, MATError>(e),
            },
    {
        let parts = split_at_char(input.as_str(), '/');
        proof {
            lemma_split_nonempty(input@, '/');
            assert(views(parts@)[0] == parts@[0]@);
        }
        let head = parts[0].clone();
        if head.as_str().is_empty() {
            Err(MATError::NotAnURI)
        } else {
            Ok(head)
        }
    }

    /// Decodes the domain, cuts it at the first `/` and down to its last
    /// three labels. On success the domain is replaced by the result; on
    /// failure it is left as it was.
    pub fn clean(&mut self) -> (r: Result<(), MATError>)
        ensures
            !old(self).domain@.contains('%') ==> decoded_field(old(self).domain@) == old(
                self,
            ).domain@,
            match cleaned_domain(old(self).domain@) {
                Ok(d) => r is Ok && final(self).domain@ == d,
                Err(e) => r == Err::<(), MATError>(e) && final(self).domain == old(self).domain,
            },
    {
        let mut domain = self.domain();
        domain = Domain::decode_value(domain);
        if domain.as_str().is_empty() {
            return Err(MATError::URLEnconding);
        }
        domain = Domain::cut_tail(domain)?;
        domain = Domain::cut_head(domain)?;
        self.domain = domain;
        Ok(())
    }

    pub fn clone(&self) -> (d: Domain)
        ensures
            d.domain == self.domain,
    {
        Domain { domain: self.domain() }
    }
}

/// The row a domain form asks to add: the form is cleaned (its failure is
/// the answer), and the cleaned domain is added with no reference yet.
pub fn submitted_domain(form: &mut Domain) -> (r: Result<MATRow, Status>)
    ensures
        !old(form).domain@.contains('%') ==> decoded_field(old(form).domain@) == old(form).domain@,
        match cleaned_domain(old(form).domain@) {
            Err(e) => (r matches Err(s) && s.code == status_code(e)) && final(form).domain == old(
                form,
            ).domain,
            Ok(d) => final(form).domain@ == d && (r matches Ok(MATRow::Domain { id, name, nb_ref })
                && id == 0 && name@ == d && nb_ref == 0),
        },
{
    if let Err(e) = form.clean() {
        return Err(e.to_status());
    }
    Ok(MATRow::Domain { id: 0, name: form.domain(), nb_ref: 0 })
}

} // verus!
