//! The alias form (a user and a domain), and the steps that hand out a new
//! alias for them.

use vstd::prelude::*;

use crate::error::{status_code, MATError, Status};
use crate::row::{row_id, row_name, MATRow};
use crate::table::MATable;
use crate::text::push_char;
use crate::webapi::domain::{cleaned_domain, decoded_field, Domain};
use crate::webapi::user::User;

verus! {

/// A user and a domain, as named in the alias form.
pub struct Address {
    pub user: User,
    pub domain: Domain,
}

impl Address {
    /// Cleans the domain, then checks the user. The first failure is
    /// returned; a domain that cleaned stays cleaned even when the user is
    /// refused.
    pub fn clean(&mut self) -> (r: Result<(), MATError>)
        ensures
            final(self).user.name == old(self).user.name,
            !old(self).domain.domain@.contains('%') ==> decoded_field(old(self).domain.domain@)
                == old(self).domain.domain@,
            match cleaned_domain(old(self).domain.domain@) {
                Err(e) => r == Err::<(), MATError>(e) && final(self).domain.domain == old(
                    self,
                ).domain.domain,
                Ok(d) => final(self).domain.domain@ == d && (if old(self).user.name@.len() == 0 {
                    r == Err::<(), MATError>(MATError::Empty)
                } else {
                    r is Ok
                }),
            },
    {
        self.domain.clean()?;
        self.user.clean()?;
        Ok(())
    }

    pub fn new(usr: String, dmn: String) -> (a: Address)
        ensures
            a.user.name == usr,
            a.domain.domain == dmn,
    {
        Address { user: User::new(usr), domain: Domain::new(dmn) }
    }

    pub fn user(&self) -> (u: User)
        ensures
            u.name == self.user.name,
    {
        self.user.clone()
    }

    pub fn domain(&self) -> (d: Domain)
        ensures
            d.domain == self.domain.domain,
    {
        self.domain.clone()
    }

    pub fn clone(&self) -> (a: Address)
        ensures
            a.user.name == self.user.name,
            a.domain.domain == self.domain.domain,
    {
        Address { user: self.user(), domain: self.domain() }
    }
}

/// Where a request for a new alias stands.
#[derive(Debug, Clone, Copy, PartialEq, Eq, Structural)]
pub enum AliasStage {
    /// Looking up the user.
    FindUser,
    /// Adding the domain (it may already be there).
    InsertDomain,
    /// Looking up the domain that could not be added.
    FindDomain,
    /// Waiting for two random names.
    Draw,
    /// Adding the alias.
    InsertAlias,
    /// Adding the address that ties the alias to the user and the domain.
    InsertAddress,
    /// Counting one more reference to the domain.
    UpdateRef,
    /// Removing the alias after the address could not be added.
    UndoAlias,
    /// Removing the alias after the reference count could not be updated.
    UndoAliasThenAddress,
    /// Removing the address after the reference count could not be updated.
    UndoAddress,
    /// The request has been answered.
    Over,
}

/// What the caller does next for a request for a new alias.
#[derive(Debug)]
pub enum AliasAction {
    /// Look up the identifier of the row in the table (answer `Found`).
    Find(MATable, MATRow),
    /// Insert the row into the table (answer `Inserted`).
    Insert(MATable, MATRow),
    /// Delete the row by identifier from the table (answer `Deleted`).
    Delete(MATable, MATRow),
    /// Draw two random names, as `generate_random_b32_string` does (answer
    /// `Drawn`).
    Draw,
    /// Count one more reference to the domain of this identifier (answer
    /// `Updated`).
    UpdateRef(i32),
    /// Answer the request.
    Reply(Result<String, Status>),
}

/// What the caller reports back.
#[derive(Debug)]
pub enum AliasEvent {
    Found(i32),
    Inserted(bool, MATRow),
    Deleted,
    Drawn(String, String),
    Updated(Result<bool, MATError>),
}

/// A request for a new alias in progress.
#[derive(Debug)]
pub struct NewAlias {
    pub stage: AliasStage,
    pub user_row: MATRow,
    pub domain_row: MATRow,
    pub alias_row: MATRow,
    pub address_row: MATRow,
    pub usr_id: i32,
    pub dmn_id: i32,
    pub left: String,
    pub right: String,
}

/// How far a stage is from the answer: every step of a request that is
/// not over moves to a stage of smaller rank, so a request is answered
/// after at most ten steps.
pub open spec fn alias_rank(s: AliasStage) -> nat {
    match s {
        AliasStage::FindUser => 10,
        AliasStage::InsertDomain => 9,
        AliasStage::FindDomain => 8,
        AliasStage::Draw => 7,
        AliasStage::InsertAlias => 6,
        AliasStage::InsertAddress => 5,
        AliasStage::UpdateRef => 4,
        AliasStage::UndoAliasThenAddress => 3,
        AliasStage::UndoAddress => 2,
        AliasStage::UndoAlias => 1,
        AliasStage::Over => 0,
    }
}

/// The action answers with the status of `e`.
pub open spec fn replies_error(a: AliasAction, e: MATError) -> bool {
    a matches AliasAction::Reply(Err(s)) && s.code == status_code(e)
}

/// The name of a new alias: the two random parts joined by a dot.
pub open spec fn alias_name(left: Seq<char>, right: Seq<char>) -> Seq<char> {
    left + seq!['.'] + right
}

/// The answer to a request that succeeded: the new address.
pub open spec fn alias_reply(left: Seq<char>, right: Seq<char>, domain_row: MATRow) -> Seq<char> {
    alias_name(left, right) + seq!['@'] + row_name(domain_row)
}

/// The answer to a new alias names the two random parts joined by a dot,
/// then `@`, then the domain's name between single quotes.
pub proof fn lemma_alias_reply_text(left: Seq<char>, right: Seq<char>, id: i32, name: String, nb_ref: i32)
    ensures
        alias_reply(left, right, MATRow::Domain { id, name, nb_ref }) == left + seq!['.'] + right
            + seq!['@'] + seq!['\''] + name@ + seq!['\''],
{
    assert(alias_reply(left, right, MATRow::Domain { id, name, nb_ref }) =~= left + seq!['.'] + right
        + seq!['@'] + seq!['\''] + name@ + seq!['\'']);
}

fn error_reply(e: MATError) -> (a: AliasAction)
    ensures
        replies_error(a, e),
{
    AliasAction::Reply(Err(e.to_status()))
}

impl NewAlias {
    /// Starts a request: the form is cleaned (its failure is the answer),
    /// then the user is looked up.
    pub fn start(form: &mut Address) -> (r: Result<(NewAlias, AliasAction), Status>)
        ensures
            final(form).user.name == old(form).user.name,
            !old(form).domain.domain@.contains('%') ==> decoded_field(old(form).domain.domain@)
                == old(form).domain.domain@,
            match cleaned_domain(old(form).domain.domain@) {
                Err(e) => r matches Err(s) && s.code == status_code(e),
                Ok(d) => final(form).domain.domain@ == d && if old(form).user.name@.len() == 0 {
                    r matches Err(s) && s.code == status_code(MATError::Empty)
                } else {
                    r matches Ok((st, a)) && {
                        &&& st.stage == AliasStage::FindUser
                        &&& st.user_row matches MATRow::User { id, name, pass } && id == 0
                            && name == old(form).user.name && pass@ == "000000"@
                        &&& st.domain_row matches MATRow::Domain { id, name, nb_ref } && id == 0
                            && name@ == d && nb_ref == 0
                        &&& a == AliasAction::Find(MATable::Users, st.user_row)
                    }
                },
            },
    {
        if let Err(e) = form.clean() {
            return Err(e.to_status());
        }
        let user_row = MATRow::User { id: 0, name: form.user.name(), pass: String::from_str("000000") };
        let domain_row = MATRow::Domain { id: 0, name: form.domain.domain(), nb_ref: 0 };
        let action = AliasAction::Find(MATable::Users, user_row.duplicate());
        let st = NewAlias {
            stage: AliasStage::FindUser,
            user_row,
            domain_row,
            alias_row: MATRow::Alias { id: 0, name: String::new() },
            address_row: MATRow::Address { user: 0, alias: 0, domain: 0 },
            usr_id: 0,
            dmn_id: 0,
            left: String::new(),
            right: String::new(),
        };
        Ok((st, action))
    }

    /// Takes what the caller reports and says what to do next. A report
    /// that does not fit the stage ends the request with a database error.
    pub fn step(&mut self, event: AliasEvent) -> (a: AliasAction)
        ensures
            final(self).user_row == old(self).user_row,
            (final(self).stage == AliasStage::Over) == (a is Reply),
            old(self).stage != AliasStage::Over ==> alias_rank(final(self).stage) < alias_rank(
                old(self).stage,
            ),
            ({
                let s = *old(self);
                let f = *final(self);
                match (s.stage, event) {
                    (AliasStage::FindUser, AliasEvent::Found(id)) => if id == -1 {
                        f.stage == AliasStage::Over && replies_error(a, MATError::DBNotFound)
                    } else {
                        &&& f.stage == AliasStage::InsertDomain
                        &&& f.usr_id == id
                        &&& f.domain_row == s.domain_row
                        &&& a == AliasAction::Insert(MATable::Domains, s.domain_row)
                    },
                    (AliasStage::InsertDomain, AliasEvent::Inserted(ok, row)) => {
                        &&& f.domain_row == row
                        &&& f.usr_id == s.usr_id
                        &&& if ok {
                            &&& f.stage == AliasStage::Draw
                            &&& f.dmn_id == row_id(row)
                            &&& a == AliasAction::Draw
                        } else {
                            f.stage == AliasStage::FindDomain && a == AliasAction::Find(
                                MATable::Domains,
                                row,
                            )
                        }
                    },
                    (AliasStage::FindDomain, AliasEvent::Found(id)) => if id == -1 {
                        f.stage == AliasStage::Over && replies_error(a, MATError::DBNotFound)
                    } else {
                        &&& f.stage == AliasStage::Draw
                        &&& f.dmn_id == id
                        &&& f.usr_id == s.usr_id
                        &&& f.domain_row == s.domain_row
                        &&& a == AliasAction::Draw
                    },
                    (AliasStage::Draw, AliasEvent::Drawn(l, r)) => {
                        &&& f.stage == AliasStage::InsertAlias
                        &&& f.left == l
                        &&& f.right == r
                        &&& f.alias_row matches MATRow::Alias { id, name } && id == 0 && name@
                            == alias_name(f.left@, f.right@)
                        &&& f.usr_id == s.usr_id && f.dmn_id == s.dmn_id
                        &&& f.domain_row == s.domain_row
                        &&& a == AliasAction::Insert(MATable::Aliases, f.alias_row)
                    },
                    (AliasStage::InsertAlias, AliasEvent::Inserted(ok, row)) => {
                        &&& f.alias_row == row
                        &&& if ok {
                            &&& f.stage == AliasStage::InsertAddress
                            &&& f.address_row == MATRow::Address {
                                user: s.usr_id,
                                alias: row_id(row),
                                domain: s.dmn_id,
                            }
                            &&& f.left == s.left && f.right == s.right
                            &&& f.domain_row == s.domain_row && f.dmn_id == s.dmn_id
                            &&& a == AliasAction::Insert(MATable::Address, f.address_row)
                        } else {
                            f.stage == AliasStage::Over && replies_error(a, MATError::DBError)
                        }
                    },
                    (AliasStage::InsertAddress, AliasEvent::Inserted(ok, row)) => {
                        &&& f.address_row == row
                        &&& f.alias_row == s.alias_row
                        &&& if ok {
                            &&& f.stage == AliasStage::UpdateRef
                            &&& f.left == s.left && f.right == s.right
                            &&& f.domain_row == s.domain_row && f.dmn_id == s.dmn_id
                            &&& a == AliasAction::UpdateRef(s.dmn_id)
                        } else {
                            f.stage == AliasStage::UndoAlias && a == AliasAction::Delete(
                                MATable::Aliases,
                                s.alias_row,
                            )
                        }
                    },
                    (AliasStage::UndoAlias, AliasEvent::Deleted) => f.stage == AliasStage::Over
                        && replies_error(a, MATError::DBError),
                    (AliasStage::UpdateRef, AliasEvent::Updated(r)) => match r {
                        Err(_) => {
                            &&& f.stage == AliasStage::UndoAliasThenAddress
                            &&& f.address_row == s.address_row
                            &&& a == AliasAction::Delete(MATable::Aliases, s.alias_row)
                        },
                        Ok(false) => f.stage == AliasStage::Over && replies_error(
                            a,
                            MATError::DBNotFound,
                        ),
                        Ok(true) => f.stage == AliasStage::Over && (a matches AliasAction::Reply(
                            Ok(text),
                        ) && text@ == alias_reply(s.left@, s.right@, s.domain_row)),
                    },
                    (AliasStage::UndoAliasThenAddress, AliasEvent::Deleted) => {
                        // The address row is deleted by a request on the
                        // alias table (its alias and domain as the filter).
                        &&& f.stage == AliasStage::UndoAddress
                        &&& a == AliasAction::Delete(MATable::Aliases, s.address_row)
                    },
                    (AliasStage::UndoAddress, AliasEvent::Deleted) => f.stage == AliasStage::Over
                        && replies_error(a, MATError::DBError),
                    _ => f.stage == AliasStage::Over && replies_error(a, MATError::DBError),
                }
            }),
    {
        match (self.stage, event) {
            (AliasStage::FindUser, AliasEvent::Found(id)) => {
                if id == -1 {
                    self.stage = AliasStage::Over;
                    return error_reply(MATError::DBNotFound);
                }
                self.usr_id = id;
                self.stage = AliasStage::InsertDomain;
                AliasAction::Insert(MATable::Domains, self.domain_row.duplicate())
            },
            (AliasStage::InsertDomain, AliasEvent::Inserted(ok, row)) => {
                if ok {
                    self.dmn_id = row.id();
                    self.domain_row = row;
                    self.stage = AliasStage::Draw;
                    AliasAction::Draw
                } else {
                    let action = AliasAction::Find(MATable::Domains, row.duplicate());
                    self.domain_row = row;
                    self.stage = AliasStage::FindDomain;
                    action
                }
            },
            (AliasStage::FindDomain, AliasEvent::Found(id)) => {
                if id == -1 {
                    self.stage = AliasStage::Over;
                    return error_reply(MATError::DBNotFound);
                }
                self.dmn_id = id;
                self.stage = AliasStage::Draw;
                AliasAction::Draw
            },
            (AliasStage::Draw, AliasEvent::Drawn(left, right)) => {
                let mut name = left.clone();
                push_char(&mut name, '.');
                name.append(right.as_str());
                self.left = left;
                self.right = right;
                self.alias_row = MATRow::Alias { id: 0, name };
                self.stage = AliasStage::InsertAlias;
                AliasAction::Insert(MATable::Aliases, self.alias_row.duplicate())
            },
            (AliasStage::InsertAlias, AliasEvent::Inserted(ok, row)) => {
                if !ok {
                    self.alias_row = row;
                    self.stage = AliasStage::Over;
                    return error_reply(MATError::DBError);
                }
                self.address_row = MATRow::Address {
                    user: self.usr_id,
                    alias: row.id(),
                    domain: self.dmn_id,
                };
                self.alias_row = row;
                self.stage = AliasStage::InsertAddress;
                AliasAction::Insert(MATable::Address, self.address_row.duplicate())
            },
            (AliasStage::InsertAddress, AliasEvent::Inserted(ok, row)) => {
                self.address_row = row;
                if ok {
                    self.stage = AliasStage::UpdateRef;
                    AliasAction::UpdateRef(self.dmn_id)
                } else {
                    self.stage = AliasStage::UndoAlias;
                    AliasAction::Delete(MATable::Aliases, self.alias_row.duplicate())
                }
            },
            (AliasStage::UndoAlias, AliasEvent::Deleted) => {
                self.stage = AliasStage::Over;
                error_reply(MATError::DBError)
            },
            (AliasStage::UpdateRef, AliasEvent::Updated(r)) => {
                match r {
                    Err(_) => {
                        self.stage = AliasStage::UndoAliasThenAddress;
                        AliasAction::Delete(MATable::Aliases, self.alias_row.duplicate())
                    },
                    Ok(false) => {
                        self.stage = AliasStage::Over;
                        error_reply(MATError::DBNotFound)
                    },
                    Ok(true) => {
                        self.stage = AliasStage::Over;
                        let mut text = self.left.clone();
                        push_char(&mut text, '.');
                        text.append(self.right.as_str());
                        push_char(&mut text, '@');
                        let dname = self.domain_row.name();
                        text.append(dname.as_str());
                        AliasAction::Reply(Ok(text))
                    },
                }
            },
            (AliasStage::UndoAliasThenAddress, AliasEvent::Deleted) => {
                self.stage = AliasStage::UndoAddress;
                AliasAction::Delete(MATable::Aliases, self.address_row.duplicate())
            },
            (AliasStage::UndoAddress, AliasEvent::Deleted) => {
                self.stage = AliasStage::Over;
                error_reply(MATError::DBError)
            },
            _ => {
                self.stage = AliasStage::Over;
                error_reply(MATError::DBError)
            },
        }
    }
}

} // verus!
