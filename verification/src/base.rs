//! The database handle.

use vstd::prelude::*;

use crate::table::{create_request, drop_request, MATable, Plan};

verus! {

/// A database as the service sees it: the file it lives in and whether it
/// is open. The connection itself is held by whoever runs the requests.
#[derive(Debug)]
pub struct DBase {
    pub fname: String,
    pub up: bool,
}

/// The tables in the order they are created and dropped.
pub open spec fn all_tables() -> Seq<MATable> {
    seq![MATable::Users, MATable::Aliases, MATable::Domains, MATable::Address]
}

impl DBase {
    /// Registers an open database.
    pub fn new(fname: &String) -> (db: DBase)
        ensures
            db.fname == *fname,
            db.up,
    {
        DBase { fname: fname.clone(), up: true }
    }

    /// Marks the database closed.
    pub fn close(&mut self)
        ensures
            final(self).fname == old(self).fname,
            !final(self).up,
    {
        self.up = false;
    }

    /// Opens a database and gives the requests that create each table, in
    /// order: users, aliases, domains, addresses.
    pub fn init(fname: &String) -> (r: (DBase, Vec<String>))
        ensures
            r.0.fname == *fname,
            r.0.up,
            r.1@.len() == 4,
            forall|i: int| 0 <= i < 4 ==> (#[trigger] r.1@[i])@ == create_request(all_tables()[i]),
    {
        let metadb = DBase::new(fname);
        let mut requests: Vec<String> = Vec::new();
        let tables = [MATable::Users, MATable::Aliases, MATable::Domains, MATable::Address];
        let mut i: usize = 0;
        while i < 4
            invariant
                metadb.up,
                i <= 4,
                tables@ == all_tables(),
                requests@.len() == i,
                forall|j: int| 0 <= j < i ==> (#[trigger] requests@[j])@ == create_request(all_tables()[j]),
            decreases 4 - i,
        {
            match tables[i].create(&metadb) {
                Plan::Run(q) => requests.push(q),
                Plan::Answer(_) => {},
            }
            i = i + 1;
        }
        (metadb, requests)
    }

    /// Gives the requests that drop each table, in the order they were
    /// created, and marks the database closed. A closed database has
    /// nothing to drop.
    pub fn release(&mut self) -> (requests: Vec<String>)
        ensures
            final(self).fname == old(self).fname,
            !final(self).up,
            old(self).up ==> requests@.len() == 4 && forall|i: int|
                0 <= i < 4 ==> (#[trigger] requests@[i])@ == drop_request(all_tables()[i]),
            !old(self).up ==> requests@.len() == 0,
    {
        let mut requests: Vec<String> = Vec::new();
        let tables = [MATable::Users, MATable::Aliases, MATable::Domains, MATable::Address];
        let mut i: usize = 0;
        while i < 4
            invariant
                self.up == old(self).up,
                self.fname == old(self).fname,
                i <= 4,
                tables@ == all_tables(),
                self.up ==> requests@.len() == i,
                !self.up ==> requests@.len() == 0,
                forall|j: int| 0 <= j < requests@.len() ==> (#[trigger] requests@[j])@ == drop_request(all_tables()[j]),
            decreases 4 - i,
        {
            match tables[i].drop(self) {
                Plan::Run(q) => requests.push(q),
                Plan::Answer(_) => {},
            }
            i = i + 1;
        }
        self.close();
        requests
    }
}

} // verus!
