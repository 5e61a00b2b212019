//! The user field of the forms, and the steps that list the addresses of a
//! user.

use vstd::prelude::*;

use crate::error::{status_code, MATError, Status};
use crate::row::{row_name, MATRow};
use crate::table::MATable;
use crate::text::{int_text, int_to_string, push_char};

verus! {

/// A user, as named in a form.
pub struct User {
    pub name: String,
}

impl User {
    pub fn new(name: String) -> (u: User)
        ensures
            u.name == name,
    {
        User { name }
    }

    /// A copy of the name.
    pub fn name(&self) -> (n: String)
        ensures
            n == self.name,
    {
        self.name.clone()
    }

    /// Checks the name: an empty one is refused with `Empty`, any other is
    /// kept as it is.
    pub fn clean(&mut self) -> (r: Result<(), MATError>)
        ensures
            final(self).name == old(self).name,
            r is Err <==> old(self).name@.len() == 0,
            r is Err ==> r == Err::<(), MATError>(MATError::Empty),
    {
        let name = self.name();
        if name.as_str().is_empty() {
            Err(MATError::Empty)
        } else {
            self.name = name;
            Ok(())
        }
    }

    pub fn clone(&self) -> (u: User)
        ensures
            u.name == self.name,
    {
        User { name: self.name() }
    }
}

/// The user row that stands for a named user: no identifier yet, and the
/// placeholder password `000000`.
pub open spec fn is_user_row_for(r: MATRow, name: String) -> bool {
    r matches MATRow::User { id, name: n, pass } && id == 0 && n == name && pass@ == "000000"@
}

/// The row of a submitted user has no identifier yet, the user's name and
/// the password `000000`; a selection by identifier asks for `where `id` =`
/// followed by the identifier in decimal.
pub proof fn lemma_user_row_and_id_filter(name: String, pass: String, id: i32)
    ensures
        is_user_row_for(MATRow::User { id: 0, name, pass }, name) <==> pass@ == "000000"@,
        !is_user_row_for(MATRow::User { id: 1, name, pass }, name),
        id_is(id) == "where `id` = "@ + int_text(id as int),
{
}

fn user_row(name: String) -> (r: MATRow)
    ensures
        is_user_row_for(r, name),
{
    MATRow::User { id: 0, name, pass: String::from_str("000000") }
}

/// The row a user form asks to add: the form is checked (its failure is the
/// answer) and the user is added with the placeholder password.
pub fn submitted_user(form: &mut User) -> (r: Result<MATRow, Status>)
    ensures
        final(form).name == old(form).name,
        old(form).name@.len() == 0 ==> (r matches Err(s) && s.code == status_code(MATError::Empty)),
        old(form).name@.len() != 0 ==> (r matches Ok(row) && is_user_row_for(row, old(form).name)),
{
    if let Err(e) = form.clean() {
        return Err(e.to_status());
    }
    Ok(user_row(form.name()))
}

/// Where a listing of addresses stands.
#[derive(Debug, Clone, Copy, PartialEq, Eq, Structural)]
pub enum ListStage {
    /// Looking up the user.
    FindUser,
    /// Selecting the addresses of the user.
    SelectAddresses,
    /// Selecting the alias of the current address.
    SelectAlias,
    /// Selecting the domain of the current address.
    SelectDomain,
    /// The request has been answered.
    Over,
}

/// What the caller does next for a listing.
#[derive(Debug)]
pub enum ListAction {
    /// Look up the identifier of the row in the table (answer `Found`).
    Find(MATable, MATRow),
    /// Select the rows of the table that the filter keeps (answer
    /// `Selected`).
    Select(MATable, String),
    /// Answer the request.
    Reply(Result<String, Status>),
}

/// What the caller reports back.
#[derive(Debug)]
pub enum ListEvent {
    Found(i32),
    Selected(Result<(Vec<MATRow>, usize), MATError>),
}

/// A listing of the addresses of a user, in progress.
#[derive(Debug)]
pub struct AddressListing {
    pub stage: ListStage,
    pub addresses: Vec<MATRow>,
    pub count: usize,
    pub index: usize,
    pub domain_id: i32,
    pub text: String,
}

/// How much work a listing has left while it walks the addresses: two
/// selections for each address not yet written, one fewer once the alias
/// of the current one is in.
pub open spec fn listing_measure(s: AddressListing) -> int {
    if s.stage == ListStage::SelectDomain {
        2 * (s.count - s.index) - 1
    } else {
        2 * (s.count - s.index)
    }
}

/// The action answers with the status of `e`.
pub open spec fn lists_error(a: ListAction, e: MATError) -> bool {
    a matches ListAction::Reply(Err(s)) && s.code == status_code(e)
}

/// `where `id` = <id>`
pub open spec fn id_is(id: i32) -> Seq<char> {
    "where `id` = "@ + int_text(id as int)
}

/// What the listing does once the addresses before `index` are written:
/// answer with the text when all are, fail on a row that is not an address
/// (or is missing), else select the alias of the next one.
pub open spec fn moves_on(s: AddressListing, f: AddressListing, a: ListAction) -> bool {
    &&& f.addresses == s.addresses
    &&& f.count == s.count
    &&& f.index == s.index
    &&& f.text == s.text
    &&& if s.index >= s.count {
        f.stage == ListStage::Over && (a matches ListAction::Reply(Ok(t)) && t == s.text)
    } else if s.index >= s.addresses@.len() {
        f.stage == ListStage::Over && lists_error(a, MATError::DBError)
    } else {
        match s.addresses@[s.index as int] {
            MATRow::Address { user, alias, domain } => {
                &&& f.stage == ListStage::SelectAlias
                &&& f.domain_id == domain
                &&& a matches ListAction::Select(t, q) && t == MATable::Aliases && q@ == id_is(alias)
            },
            _ => f.stage == ListStage::Over && lists_error(a, MATError::DBError),
        }
    }
}

fn id_filter_text(id: i32) -> (q: String)
    ensures
        q@ == id_is(id),
{
    let mut q = String::from_str("where `id` = ");
    let t = int_to_string(id);
    q.append(t.as_str());
    q
}

impl AddressListing {
    /// Starts a listing: the form is checked (its failure is the answer),
    /// then the user is looked up.
    pub fn start(form: &mut User) -> (r: Result<(AddressListing, ListAction), Status>)
        ensures
            final(form).name == old(form).name,
            old(form).name@.len() == 0 ==> (r matches Err(s) && s.code == status_code(MATError::Empty)),
            old(form).name@.len() != 0 ==> (r matches Ok((st, a)) && st.stage == ListStage::FindUser
                && st.text@.len() == 0 && (a matches ListAction::Find(t, row) && t == MATable::Users
                && is_user_row_for(row, old(form).name))),
    {
        if let Err(e) = form.clean() {
            return Err(e.to_status());
        }
        let st = AddressListing {
            stage: ListStage::FindUser,
            addresses: Vec::new(),
            count: 0,
            index: 0,
            domain_id: 0,
            text: String::new(),
        };
        Ok((st, ListAction::Find(MATable::Users, user_row(form.name()))))
    }

    fn move_on(&mut self) -> (a: ListAction)
        ensures
            moves_on(*old(self), *final(self), a),
    {
        if self.index >= self.count {
            self.stage = ListStage::Over;
            return ListAction::Reply(Ok(self.text.clone()));
        }
        if self.index >= self.addresses.len() {
            self.stage = ListStage::Over;
            return ListAction::Reply(Err(MATError::DBError.to_status()));
        }
        match &self.addresses[self.index] {
            MATRow::Address { user: _, alias, domain } => {
                let q = id_filter_text(*alias);
                self.domain_id = *domain;
                self.stage = ListStage::SelectAlias;
                ListAction::Select(MATable::Aliases, q)
            },
            _ => {
                self.stage = ListStage::Over;
                ListAction::Reply(Err(MATError::DBError.to_status()))
            },
        }
    }

    /// Takes what the caller reports and says what to do next. A failed
    /// selection, an alias or domain that is not found, or a report that
    /// does not fit the stage ends the request with a database error.
    pub fn step(&mut self, event: ListEvent) -> (a: ListAction)
        ensures
            (final(self).stage == ListStage::Over) == (a is Reply),
            (old(self).stage == ListStage::SelectAlias || old(self).stage == ListStage::SelectDomain)
                && final(self).stage != ListStage::Over ==> listing_measure(*final(self))
                < listing_measure(*old(self)),
            final(self).stage == ListStage::SelectAlias ==> final(self).index < final(self).count,
            ({
                let s = *old(self);
                let f = *final(self);
                match (s.stage, event) {
                    (ListStage::FindUser, ListEvent::Found(id)) => if id == -1 {
                        f.stage == ListStage::Over && lists_error(a, MATError::DBNotFound)
                    } else {
                        &&& f.stage == ListStage::SelectAddresses
                        &&& f.text == s.text
                        &&& a matches ListAction::Select(t, q) && t == MATable::Address && q@
                            == "WHERE `user` = "@ + int_text(id as int)
                    },
                    (ListStage::SelectAddresses, ListEvent::Selected(r)) => match r {
                        Err(_) => f.stage == ListStage::Over && lists_error(a, MATError::DBError),
                        Ok((rows, n)) => {
                            let mid = AddressListing { addresses: rows, count: n, index: 0, ..s };
                            moves_on(mid, f, a)
                        },
                    },
                    (ListStage::SelectAlias, ListEvent::Selected(r)) => match r {
                        Ok((rows, n)) if rows@.len() > 0 => {
                            &&& f.stage == ListStage::SelectDomain
                            &&& f.text@ == s.text@ + row_name(rows@[0]) + seq!['@']
                            &&& f.addresses == s.addresses && f.count == s.count && f.index == s.index
                            &&& a matches ListAction::Select(t, q) && t == MATable::Domains && q@
                                == id_is(s.domain_id)
                        },
                        _ => f.stage == ListStage::Over && lists_error(a, MATError::DBError),
                    },
                    (ListStage::SelectDomain, ListEvent::Selected(r)) => match r {
                        Ok((rows, n)) if rows@.len() > 0 && s.index < usize::MAX => {
                            let mid = AddressListing {
                                index: (s.index + 1) as usize,
                                text: f.text,
                                ..s
                            };
                            &&& f.text@ == s.text@ + row_name(rows@[0]) + seq!['\n']
                            &&& moves_on(mid, f, a)
                        },
                        _ => f.stage == ListStage::Over && lists_error(a, MATError::DBError),
                    },
                    _ => f.stage == ListStage::Over && lists_error(a, MATError::DBError),
                }
            }),
    {
        match (self.stage, event) {
            (ListStage::FindUser, ListEvent::Found(id)) => {
                if id == -1 {
                    self.stage = ListStage::Over;
                    return ListAction::Reply(Err(MATError::DBNotFound.to_status()));
                }
                let mut q = String::from_str("WHERE `user` = ");
                let t = int_to_string(id);
                q.append(t.as_str());
                self.stage = ListStage::SelectAddresses;
                ListAction::Select(MATable::Address, q)
            },
            (ListStage::SelectAddresses, ListEvent::Selected(r)) => {
                match r {
                    Err(_) => {
                        self.stage = ListStage::Over;
                        ListAction::Reply(Err(MATError::DBError.to_status()))
                    },
                    Ok((rows, n)) => {
                        self.addresses = rows;
                        self.count = n;
                        self.index = 0;
                        let ghost mid = *self;
                        let a = self.move_on();
                        assert(moves_on(mid, *self, a));
                        a
                    },
                }
            },
            (ListStage::SelectAlias, ListEvent::Selected(r)) => {
                match r {
                    Ok((rows, _)) => {
                        if rows.len() == 0 {
                            self.stage = ListStage::Over;
                            return ListAction::Reply(Err(MATError::DBError.to_status()));
                        }
                        let name = rows[0].name();
                        self.text.append(name.as_str());
                        push_char(&mut self.text, '@');
                        self.stage = ListStage::SelectDomain;
                        ListAction::Select(MATable::Domains, id_filter_text(self.domain_id))
                    },
                    Err(_) => {
                        self.stage = ListStage::Over;
                        ListAction::Reply(Err(MATError::DBError.to_status()))
                    },
                }
            },
            (ListStage::SelectDomain, ListEvent::Selected(r)) => {
                match r {
                    Ok((rows, _)) => {
                        if rows.len() == 0 || self.index == usize::MAX {
                            self.stage = ListStage::Over;
                            return ListAction::Reply(Err(MATError::DBError.to_status()));
                        }
                        let name = rows[0].name();
                        self.text.append(name.as_str());
                        push_char(&mut self.text, '\n');
                        self.index = self.index + 1;
                        let ghost mid = *self;
                        let a = self.move_on();
                        assert(moves_on(mid, *self, a));
                        a
                    },
                    Err(_) => {
                        self.stage = ListStage::Over;
                        ListAction::Reply(Err(MATError::DBError.to_status()))
                    },
                }
            },
            _ => {
                self.stage = ListStage::Over;
                ListAction::Reply(Err(MATError::DBError.to_status()))
            },
        }
    }
}

} // verus!
