//! The rows of the four tables.

use vstd::prelude::*;

use crate::text::push_char;

verus! {

/// One row of one of the tables.
#[derive(Debug)]
pub enum MATRow {
    User { id: i32, name: String, pass: String },
    Alias { id: i32, name: String },
    Domain { id: i32, name: String, nb_ref: i32 },
    Address { user: i32, alias: i32, domain: i32 },
}

/// `s` between single quotes.
pub open spec fn quoted(s: Seq<char>) -> Seq<char> {
    seq!['\''] + s + seq!['\'']
}

/// The identifier of a row; an address row has none and answers `-1`.
pub open spec fn row_id(r: MATRow) -> i32 {
    match r {
        MATRow::User { id, .. } => id,
        MATRow::Alias { id, .. } => id,
        MATRow::Domain { id, .. } => id,
        MATRow::Address { .. } => -1i32,
    }
}

/// Whether the row has a name (and an identifier): all but address rows.
pub open spec fn is_named(r: MATRow) -> bool {
    !(r is Address)
}

/// The name of a named row.
pub open spec fn raw_name(r: MATRow) -> Seq<char> {
    match r {
        MATRow::User { name, .. } => name@,
        MATRow::Alias { name, .. } => name@,
        MATRow::Domain { name, .. } => name@,
        MATRow::Address { .. } => Seq::<char>::empty(),
    }
}

/// The name of a row as it is shown: quoted for a named row, empty for an
/// address row.
pub open spec fn row_name(r: MATRow) -> Seq<char> {
    if is_named(r) {
        quoted(raw_name(r))
    } else {
        Seq::<char>::empty()
    }
}

/// The row with its identifier replaced; an address row is left as it is.
pub open spec fn with_id(r: MATRow, new_id: i32) -> MATRow {
    match r {
        MATRow::User { id, name, pass } => MATRow::User { id: new_id, name, pass },
        MATRow::Alias { id, name } => MATRow::Alias { id: new_id, name },
        MATRow::Domain { id, name, nb_ref } => MATRow::Domain { id: new_id, name, nb_ref },
        MATRow::Address { user, alias, domain } => MATRow::Address { user, alias, domain },
    }
}

/// A named row that takes a new identifier answers it, and keeps its name;
/// an address row keeps everything.
pub proof fn lemma_with_id_keeps_name(r: MATRow, new_id: i32)
    ensures
        row_name(with_id(r, new_id)) == row_name(r),
        is_named(r) ==> row_id(with_id(r, new_id)) == new_id,
        !is_named(r) ==> with_id(r, new_id) == r,
{
}

/// How a row is shown: a user, alias or domain by its name between single
/// quotes; an address by nothing. Its identifier is the `id` field, and `-1`
/// for an address.
pub proof fn lemma_row_shown(r: MATRow)
    ensures
        match r {
            MATRow::User { id, name, pass } => row_name(r) == seq!['\''] + name@ + seq!['\'']
                && row_id(r) == id,
            MATRow::Alias { id, name } => row_name(r) == seq!['\''] + name@ + seq!['\''] && row_id(r)
                == id,
            MATRow::Domain { id, name, nb_ref } => row_name(r) == seq!['\''] + name@ + seq!['\'']
                && row_id(r) == id,
            MATRow::Address { .. } => row_name(r).len() == 0 && row_id(r) == -1,
        },
{
}

/// `s` between single quotes.
pub fn quote(s: &str) -> (q: String)
    ensures
        q@ == quoted(s@),
{
    let mut q = String::new();
    push_char(&mut q, '\'');
    q.append(s);
    push_char(&mut q, '\'');
    q
}

impl MATRow {
    /// The identifier of the row, `-1` for an address row.
    pub fn id(&self) -> (i: i32)
        ensures
            i == row_id(*self),
    {
        match self {
            MATRow::User { id, name: _, pass: _ } => *id,
            MATRow::Alias { id, name: _ } => *id,
            MATRow::Domain { id, name: _, nb_ref: _ } => *id,
            MATRow::Address { user: _, alias: _, domain: _ } => -1,
        }
    }

    /// The name of the row between single quotes, empty for an address row.
    pub fn name(&self) -> (n: String)
        ensures
            n@ == row_name(*self),
    {
        match self {
            MATRow::User { id: _, name, pass: _ } => quote(name.as_str()),
            MATRow::Alias { id: _, name } => quote(name.as_str()),
            MATRow::Domain { id: _, name, nb_ref: _ } => quote(name.as_str()),
            MATRow::Address { user: _, alias: _, domain: _ } => String::new(),
        }
    }

    /// Gives a named row a new identifier; an address row is unchanged.
    pub fn set_id(&mut self, new_id: i32)
        ensures
            *final(self) == with_id(*old(self), new_id),
    {
        match self {
            MATRow::User { id, name: _, pass: _ } => *id = new_id,
            MATRow::Alias { id, name: _ } => *id = new_id,
            MATRow::Domain { id, name: _, nb_ref: _ } => *id = new_id,
            MATRow::Address { user: _, alias: _, domain: _ } => {},
        }
    }

    /// An equal copy of the row.
    pub fn duplicate(&self) -> (r: MATRow)
        ensures
            r == *self,
    {
        match self {
            MATRow::User { id, name, pass } => MATRow::User {
                id: *id,
                name: name.clone(),
                pass: pass.clone(),
            },
            MATRow::Alias { id, name } => MATRow::Alias { id: *id, name: name.clone() },
            MATRow::Domain { id, name, nb_ref } => MATRow::Domain {
                id: *id,
                name: name.clone(),
                nb_ref: *nb_ref,
            },
            MATRow::Address { user, alias, domain } => MATRow::Address {
                user: *user,
                alias: *alias,
                domain: *domain,
            },
        }
    }
}

} // verus!
