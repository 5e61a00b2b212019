//! The four tables: the SQL request that each operation sends to the
//! database, and what is made of the database's replies.
//!
//! The database itself is reached by the caller. An operation either answers
//! at once (`Plan::Answer`, when the database handle is closed) or names the
//! request to run (`Plan::Run`); operations of several steps are driven by
//! step functions that take the reply to the previous request.

use vstd::prelude::*;

use crate::base::DBase;
use crate::error::MATError;
use crate::row::{is_named, raw_name, quoted, quote, with_id, MATRow};
use crate::text::{int_text, int_to_string};

verus! {

/// One of the tables.
#[derive(Debug, Clone, Copy, PartialEq, Eq, Structural)]
pub enum MATable {
    Users,
    Aliases,
    Domains,
    Address,
}

/// A value read from a column.
#[derive(Debug)]
pub enum SqlValue {
    Null,
    Integer(i64),
    Text(String),
    /// A real number, a blob, or text that is not UTF-8.
    Other,
}

/// The reply to a query of which only the first row is read.
#[derive(Debug)]
pub enum QueryReply {
    /// The query failed.
    Failed,
    /// The query returned no row.
    Empty,
    /// The columns of the first row.
    Row(Vec<SqlValue>),
}

/// What an operation does next: answer without the database, or run a
/// request.
#[derive(Debug)]
pub enum Plan<T> {
    Answer(T),
    Run(String),
}

/// The steps of an insertion.
#[derive(Debug)]
pub enum InsertStep {
    /// The insertion is over, with this outcome.
    Finished(bool),
    /// Ask whether a row of the same name exists (the first row of the
    /// query, if any, says so).
    CheckName(String),
    /// Run the insertion itself.
    Write(String),
    /// Read back the identifier the database gave the row (first column of
    /// the first row).
    ReadId(String),
}

/// The name of a table.
pub open spec fn table_name(t: MATable) -> Seq<char> {
    match t {
        MATable::Users => "Users"@,
        MATable::Aliases => "Aliases"@,
        MATable::Domains => "Domains"@,
        MATable::Address => "Address"@,
    }
}

/// The table a row belongs to.
pub open spec fn table_of(r: MATRow) -> MATable {
    match r {
        MATRow::User { .. } => MATable::Users,
        MATRow::Alias { .. } => MATable::Aliases,
        MATRow::Domain { .. } => MATable::Domains,
        MATRow::Address { .. } => MATable::Address,
    }
}

/// The column definitions of a table.
pub open spec fn table_pattern(t: MATable) -> Seq<char> {
    match t {
        MATable::Users => "`id` INTEGER PRIMARY KEY AUTOINCREMENT, `name` TEXT NOT NULL, `pass` TEXT NOT NULL"@,
        MATable::Aliases => "`id` INTEGER PRIMARY KEY AUTOINCREMENT, `name` TEXT NOT NULL"@,
        MATable::Domains => "`id` INTEGER PRIMARY KEY AUTOINCREMENT, `name` TEXT NOT NULL, `nb_ref` INTEGER NOT NULL"@,
        MATable::Address => "`user` INTEGER ,`alias` INTEGER , `domain` INTEGER , FOREIGN KEY(`user`) REFERENCES Users(`id`) , FOREIGN KEY(`alias`) REFERENCES Aliases(`id`) , FOREIGN KEY(`domain`) REFERENCES Domains(`id`) ,  PRIMARY KEY(`alias`,`domain`)"@,
    }
}

/// `create table <name> ( <columns> )`
pub open spec fn create_request(t: MATable) -> Seq<char> {
    "create table "@ + table_name(t) + " ( "@ + table_pattern(t) + " )"@
}

/// `drop table <name>`
pub open spec fn drop_request(t: MATable) -> Seq<char> {
    "drop table "@ + table_name(t)
}

/// `select <what> from <name> <filter>`
pub open spec fn select_request(t: MATable, what: Seq<char>, filter: Seq<char>) -> Seq<char> {
    "select "@ + what + " from "@ + table_name(t) + " "@ + filter
}

/// `delete from <name> <filter>`
pub open spec fn delete_request(t: MATable, filter: Seq<char>) -> Seq<char> {
    "delete from "@ + table_name(t) + " "@ + filter
}

/// `update <name> set <operation> where <filter>`
pub open spec fn update_request(t: MATable, operation: Seq<char>, filter: Seq<char>) -> Seq<char> {
    "update "@ + table_name(t) + " set "@ + operation + " where "@ + filter
}

/// `where `name` = '<name>'`
pub open spec fn name_filter(name: Seq<char>) -> Seq<char> {
    "where `name` = "@ + quoted(name)
}

/// The query that finds a row of the given name in table `t`.
pub open spec fn exist_request(t: MATable, name: Seq<char>) -> Seq<char> {
    select_request(t, "`name`"@, name_filter(name))
}

/// The query that reads back the identifier of a row: by name for a named
/// row (in the row's own table), the user of an address by its alias and
/// domain.
pub open spec fn retrieve_request(r: MATRow) -> Seq<char> {
    match r {
        MATRow::Address { user, alias, domain } => "select `user` from "@ + table_name(
            MATable::Address,
        ) + " where `alias` = "@ + quoted(int_text(alias as int)) + " and `domain` = "@
            + int_text(domain as int),
        _ => "select `id` from "@ + table_name(table_of(r)) + " where `name` = "@ + quoted(
            raw_name(r),
        ),
    }
}

/// The columns an insertion fills, and their values.
pub open spec fn insert_columns(r: MATRow) -> (Seq<char>, Seq<char>) {
    match r {
        MATRow::User { id, name, pass } => ("name, pass"@, quoted(name@) + ", "@ + quoted(pass@)),
        MATRow::Alias { id, name } => ("name"@, quoted(name@)),
        MATRow::Domain { id, name, nb_ref } => (
            "name, nb_ref"@,
            quoted(name@) + ", "@ + int_text(nb_ref as int),
        ),
        MATRow::Address { user, alias, domain } => (
            "user, alias, domain"@,
            int_text(user as int) + ", "@ + int_text(alias as int) + ", "@ + int_text(
                domain as int,
            ),
        ),
    }
}

/// `insert into <name> ( <columns> ) values ( <values> )`
pub open spec fn insert_request(t: MATable, r: MATRow) -> Seq<char> {
    "insert into "@ + table_name(t) + " ( "@ + insert_columns(r).0 + " ) values ( "@
        + insert_columns(r).1 + " )"@
}

/// The filter that picks a row by its identifier (an address by its alias
/// and domain).
pub open spec fn id_filter(r: MATRow) -> Seq<char> {
    match r {
        MATRow::Address { user, alias, domain } => "where `alias` = "@ + int_text(alias as int)
            + " and `domain` = "@ + int_text(domain as int),
        _ => "where `id` = "@ + int_text(crate::row::row_id(r) as int),
    }
}

/// The filter that picks a row by its name (addresses by their user).
pub open spec fn name_or_user_filter(r: MATRow) -> Seq<char> {
    match r {
        MATRow::Address { user, alias, domain } => "where `user` = "@ + quoted(
            int_text(user as int),
        ),
        _ => name_filter(raw_name(r)),
    }
}

/// The request that adds `delta` to the reference count of the row of
/// identifier `id`.
pub open spec fn ref_request(t: MATable, id: i32, delta: i32) -> Seq<char> {
    update_request(t, "`nb_ref` = `nb_ref` + "@ + int_text(delta as int), "`id` = "@ + int_text(id as int))
}

/// The integer a column holds, when it holds one that fits an `i32`.
pub open spec fn int_column(v: SqlValue) -> Option<i32> {
    match v {
        SqlValue::Integer(i) => if i32::MIN <= i && i <= i32::MAX {
            Some(i as i32)
        } else {
            None
        },
        _ => None,
    }
}

/// The text a column holds, when it holds text.
pub open spec fn text_column(v: SqlValue) -> Option<String> {
    match v {
        SqlValue::Text(s) => Some(s),
        _ => None,
    }
}

/// The identifier in the first column of the first row of a reply.
pub open spec fn reply_id(reply: QueryReply) -> Option<i32> {
    match reply {
        QueryReply::Row(cols) => if cols@.len() > 0 {
            int_column(cols@[0])
        } else {
            None
        },
        _ => None,
    }
}

/// The row of table `t` that a line of columns stands for, when each
/// column it needs is there with the right type.
pub open spec fn decoded_row(t: MATable, cols: Seq<SqlValue>) -> Option<MATRow> {
    if cols.len() < if t == MATable::Aliases { 2nat } else { 3nat } {
        None
    } else {
        match t {
            MATable::Users => match (int_column(cols[0]), text_column(cols[1]), text_column(cols[2])) {
                (Some(id), Some(name), Some(pass)) => Some(MATRow::User { id, name, pass }),
                _ => None,
            },
            MATable::Aliases => match (int_column(cols[0]), text_column(cols[1])) {
                (Some(id), Some(name)) => Some(MATRow::Alias { id, name }),
                _ => None,
            },
            MATable::Domains => match (int_column(cols[0]), text_column(cols[1]), int_column(cols[2])) {
                (Some(id), Some(name), Some(nb_ref)) => Some(MATRow::Domain { id, name, nb_ref }),
                _ => None,
            },
            MATable::Address => match (int_column(cols[0]), int_column(cols[1]), int_column(cols[2])) {
                (Some(user), Some(alias), Some(domain)) => Some(MATRow::Address { user, alias, domain }),
                _ => None,
            },
        }
    }
}

/// Every line decodes, and the rows are those lines decoded, in order.
pub open spec fn rows_decode_to(t: MATable, lines: Seq<Vec<SqlValue>>, rows: Seq<MATRow>) -> bool {
    &&& rows.len() == lines.len()
    &&& forall|i: int| 0 <= i < lines.len() ==> decoded_row(t, #[trigger] lines[i]@) == Some(rows[i])
}

/// Whether every line decodes to a row of table `t`.
pub open spec fn all_lines_decode(t: MATable, lines: Seq<Vec<SqlValue>>) -> bool {
    forall|i: int| 0 <= i < lines.len() ==> (#[trigger] decoded_row(t, lines[i]@)) is Some
}

fn append_int(s: &mut String, i: i32)
    ensures
        final(s)@ == old(s)@ + int_text(i as int),
{
    let t = int_to_string(i);
    s.append(t.as_str());
}

fn append_quoted(s: &mut String, text: &str)
    ensures
        final(s)@ == old(s)@ + quoted(text@),
{
    let q = quote(text);
    s.append(q.as_str());
}

fn decode_int(v: &SqlValue) -> (r: Option<i32>)
    ensures
        r == int_column(*v),
{
    match v {
        SqlValue::Integer(i) => if i32::MIN as i64 <= *i && *i <= i32::MAX as i64 {
            Some(*i as i32)
        } else {
            None
        },
        _ => None,
    }
}

fn decode_text(v: &SqlValue) -> (r: Option<String>)
    ensures
        r == text_column(*v),
{
    match v {
        SqlValue::Text(s) => Some(s.clone()),
        _ => None,
    }
}

impl MATable {
    /// The name of the table.
    pub fn _get(&self) -> (n: &'static str)
        ensures
            n@ == table_name(*self),
    {
        match self {
            MATable::Users => "Users",
            MATable::Aliases => "Aliases",
            MATable::Domains => "Domains",
            MATable::Address => "Address",
        }
    }

    /// The name of a table.
    pub fn get(row: MATable) -> (n: &'static str)
        ensures
            n@ == table_name(row),
    {
        match row {
            MATable::Users => "Users",
            MATable::Aliases => "Aliases",
            MATable::Domains => "Domains",
            MATable::Address => "Address",
        }
    }

    fn pattern(&self) -> (p: &'static str)
        ensures
            p@ == table_pattern(*self),
    {
        match self {
            MATable::Users => "`id` INTEGER PRIMARY KEY AUTOINCREMENT, `name` TEXT NOT NULL, `pass` TEXT NOT NULL",
            MATable::Aliases => "`id` INTEGER PRIMARY KEY AUTOINCREMENT, `name` TEXT NOT NULL",
            MATable::Domains => "`id` INTEGER PRIMARY KEY AUTOINCREMENT, `name` TEXT NOT NULL, `nb_ref` INTEGER NOT NULL",
            MATable::Address => "`user` INTEGER ,`alias` INTEGER , `domain` INTEGER , FOREIGN KEY(`user`) REFERENCES Users(`id`) , FOREIGN KEY(`alias`) REFERENCES Aliases(`id`) , FOREIGN KEY(`domain`) REFERENCES Domains(`id`) ,  PRIMARY KEY(`alias`,`domain`)",
        }
    }

    /// `select <what> from <table> <filter>`
    pub fn select_text(&self, what: &str, filter: &str) -> (q: String)
        ensures
            q@ == select_request(*self, what@, filter@),
    {
        let mut q = String::from_str("select ");
        q.append(what);
        q.append(" from ");
        q.append(self._get());
        q.append(" ");
        q.append(filter);
        q
    }

    /// The query that looks for a row named `name` in this table.
    pub fn exist_text(&self, name: &str) -> (q: String)
        ensures
            q@ == exist_request(*self, name@),
    {
        let mut filter = String::from_str("where `name` = ");
        append_quoted(&mut filter, name);
        self.select_text("`name`", filter.as_str())
    }

    /// The query that reads back the identifier of `entity` (the user of an
    /// address); it goes to the entity's own table whatever `self` is.
    pub fn retrieve_id_text(&self, entity: &MATRow) -> (q: String)
        ensures
            q@ == retrieve_request(*entity),
    {
        match entity {
            MATRow::User { id: _, name, pass: _ } => {
                let mut q = String::from_str("select `id` from ");
                q.append(MATable::get(MATable::Users));
                q.append(" where `name` = ");
                append_quoted(&mut q, name.as_str());
                q
            },
            MATRow::Alias { id: _, name } => {
                let mut q = String::from_str("select `id` from ");
                q.append(MATable::get(MATable::Aliases));
                q.append(" where `name` = ");
                append_quoted(&mut q, name.as_str());
                q
            },
            MATRow::Domain { id: _, name, nb_ref: _ } => {
                let mut q = String::from_str("select `id` from ");
                q.append(MATable::get(MATable::Domains));
                q.append(" where `name` = ");
                append_quoted(&mut q, name.as_str());
                q
            },
            MATRow::Address { user: _, alias, domain } => {
                let mut q = String::from_str("select `user` from ");
                q.append(MATable::get(MATable::Address));
                q.append(" where `alias` = ");
                let a = int_to_string(*alias);
                append_quoted(&mut q, a.as_str());
                q.append(" and `domain` = ");
                append_int(&mut q, *domain);
                q
            },
        }
    }

    /// The insertion of `value` into this table.
    pub fn insert_text(&self, value: &MATRow) -> (q: String)
        ensures
            q@ == insert_request(*self, *value),
    {
        let mut pattern = String::new();
        let mut values = String::new();
        match value {
            MATRow::User { id: _, name, pass } => {
                pattern.append("name, pass");
                append_quoted(&mut values, name.as_str());
                values.append(", ");
                append_quoted(&mut values, pass.as_str());
            },
            MATRow::Alias { id: _, name } => {
                pattern.append("name");
                append_quoted(&mut values, name.as_str());
            },
            MATRow::Domain { id: _, name, nb_ref } => {
                pattern.append("name, nb_ref");
                append_quoted(&mut values, name.as_str());
                values.append(", ");
                append_int(&mut values, *nb_ref);
            },
            MATRow::Address { user, alias, domain } => {
                pattern.append("user, alias, domain");
                append_int(&mut values, *user);
                values.append(", ");
                append_int(&mut values, *alias);
                values.append(", ");
                append_int(&mut values, *domain);
            },
        }
        let mut q = String::from_str("insert into ");
        q.append(self._get());
        q.append(" ( ");
        q.append(pattern.as_str());
        q.append(" ) values ( ");
        q.append(values.as_str());
        q.append(" )");
        q
    }

    /// `delete from <table> <filter>`
    pub fn delete_text(&self, filter: &str) -> (q: String)
        ensures
            q@ == delete_request(*self, filter@),
    {
        let mut q = String::from_str("delete from ");
        q.append(self._get());
        q.append(" ");
        q.append(filter);
        q
    }

    /// `update <table> set <operation> where <filter>`
    pub fn update_text(&self, operation: &str, filter: &str) -> (q: String)
        ensures
            q@ == update_request(*self, operation@, filter@),
    {
        let mut q = String::from_str("update ");
        q.append(self._get());
        q.append(" set ");
        q.append(operation);
        q.append(" where ");
        q.append(filter);
        q
    }

    /// Creating the table: nothing to do on a closed database (the answer
    /// is then `false`); else the request to run, whose success is the
    /// answer.
    pub fn create(&self, db: &DBase) -> (p: Plan<bool>)
        ensures
            match p {
                Plan::Answer(b) => !db.up && !b,
                Plan::Run(q) => db.up && q@ == create_request(*self),
            },
    {
        if db.up == false {
            return Plan::Answer(false);
        }
        let mut q = String::from_str("create table ");
        q.append(self._get());
        q.append(" ( ");
        q.append(self.pattern());
        q.append(" )");
        Plan::Run(q)
    }

    /// Dropping the table, as `create` does.
    pub fn drop(&self, db: &DBase) -> (p: Plan<bool>)
        ensures
            match p {
                Plan::Answer(b) => !db.up && !b,
                Plan::Run(q) => db.up && q@ == drop_request(*self),
            },
    {
        if db.up == false {
            return Plan::Answer(false);
        }
        let mut q = String::from_str("drop table ");
        q.append(self._get());
        Plan::Run(q)
    }

    /// Deleting the row that `value` designates by its identifier (an
    /// address by its alias and domain).
    pub fn delete_by_id(&self, db: &DBase, value: &MATRow) -> (p: Plan<bool>)
        ensures
            match p {
                Plan::Answer(b) => !db.up && !b,
                Plan::Run(q) => db.up && q@ == delete_request(*self, id_filter(*value)),
            },
    {
        if db.up == false {
            return Plan::Answer(false);
        }
        let mut filter = String::new();
        match value {
            MATRow::User { id, name: _, pass: _ } => {
                filter.append("where `id` = ");
                append_int(&mut filter, *id);
            },
            MATRow::Alias { id, name: _ } => {
                filter.append("where `id` = ");
                append_int(&mut filter, *id);
            },
            MATRow::Domain { id, name: _, nb_ref: _ } => {
                filter.append("where `id` = ");
                append_int(&mut filter, *id);
            },
            MATRow::Address { user: _, alias, domain } => {
                filter.append("where `alias` = ");
                append_int(&mut filter, *alias);
                filter.append(" and `domain` = ");
                append_int(&mut filter, *domain);
            },
        }
        Plan::Run(self.delete_text(filter.as_str()))
    }

    /// Deleting the rows that `value` designates by its name (addresses by
    /// their user).
    pub fn delete_by_name(&self, db: &DBase, value: &MATRow) -> (p: Plan<bool>)
        ensures
            match p {
                Plan::Answer(b) => !db.up && !b,
                Plan::Run(q) => db.up && q@ == delete_request(*self, name_or_user_filter(*value)),
            },
    {
        if db.up == false {
            return Plan::Answer(false);
        }
        let mut filter = String::new();
        match value {
            MATRow::User { id: _, name, pass: _ } => {
                filter.append("where `name` = ");
                append_quoted(&mut filter, name.as_str());
            },
            MATRow::Alias { id: _, name } => {
                filter.append("where `name` = ");
                append_quoted(&mut filter, name.as_str());
            },
            MATRow::Domain { id: _, name, nb_ref: _ } => {
                filter.append("where `name` = ");
                append_quoted(&mut filter, name.as_str());
            },
            MATRow::Address { user, alias: _, domain: _ } => {
                filter.append("where `user` = ");
                let u = int_to_string(*user);
                append_quoted(&mut filter, u.as_str());
            },
        }
        Plan::Run(self.delete_text(filter.as_str()))
    }

    /// Updating by identifier changes nothing yet: it answers whether the
    /// database is open.
    pub fn update_by_id(&self, db: &DBase, value: &MATRow) -> (b: bool)
        ensures
            b == db.up,
    {
        if db.up == false {
            return false;
        }
        true
    }

    /// Updating by name is not supported: it always answers `false`.
    pub fn update_by_name(&self, db: &DBase, value: &MATRow) -> (b: bool)
        ensures
            !b,
    {
        false
    }

    /// Looking up the identifier of `entity` (the user of an address): `-1`
    /// at once on a closed database, else the query whose reply
    /// `found_id` reads.
    pub fn find(&self, db: &DBase, entity: &MATRow) -> (p: Plan<i32>)
        ensures
            match p {
                Plan::Answer(i) => !db.up && i == -1,
                Plan::Run(q) => db.up && q@ == retrieve_request(*entity),
            },
    {
        if db.up == false {
            return Plan::Answer(-1);
        }
        Plan::Run(self.retrieve_id_text(entity))
    }

    /// The identifier a lookup found, `-1` when the query failed, returned
    /// nothing, or did not hold an identifier.
    pub fn found_id(reply: &QueryReply) -> (i: i32)
        ensures
            i == match reply_id(*reply) {
                Some(id) => id,
                None => -1i32,
            },
    {
        match reply {
            QueryReply::Row(cols) => {
                if cols.len() > 0 {
                    match decode_int(&cols[0]) {
                        Some(id) => id,
                        None => -1,
                    }
                } else {
                    -1
                }
            },
            _ => -1,
        }
    }

    /// Starts inserting `value`: nothing on a closed database; a named row
    /// is first checked for a row of the same name in this table; an
    /// address row is written at once.
    pub fn insert(&self, db: &DBase, value: &MATRow) -> (s: InsertStep)
        ensures
            !db.up ==> s == InsertStep::Finished(false),
            db.up && is_named(*value) ==> (s matches InsertStep::CheckName(q) && q@ == exist_request(
                *self,
                raw_name(*value),
            )),
            db.up && !is_named(*value) ==> (s matches InsertStep::Write(q) && q@ == insert_request(
                *self,
                *value,
            )),
    {
        if db.up == false {
            return InsertStep::Finished(false);
        }
        match value {
            MATRow::User { id: _, name, pass: _ } => InsertStep::CheckName(self.exist_text(name.as_str())),
            MATRow::Alias { id: _, name } => InsertStep::CheckName(self.exist_text(name.as_str())),
            MATRow::Domain { id: _, name, nb_ref: _ } => InsertStep::CheckName(self.exist_text(name.as_str())),
            MATRow::Address { user: _, alias: _, domain: _ } => InsertStep::Write(self.insert_text(value)),
        }
    }

    /// After the name check: the row is written only when the query ran and
    /// found no row of that name.
    pub fn insert_checked(&self, value: &MATRow, reply: &QueryReply) -> (s: InsertStep)
        ensures
            reply is Empty ==> (s matches InsertStep::Write(q) && q@ == insert_request(*self, *value)),
            !(reply is Empty) ==> s == InsertStep::Finished(false),
    {
        match reply {
            QueryReply::Empty => InsertStep::Write(self.insert_text(value)),
            _ => InsertStep::Finished(false),
        }
    }

    /// After the write: the identifier is read back only when the write
    /// succeeded.
    pub fn insert_written(&self, value: &MATRow, written: bool) -> (s: InsertStep)
        ensures
            written ==> (s matches InsertStep::ReadId(q) && q@ == retrieve_request(*value)),
            !written ==> s == InsertStep::Finished(false),
    {
        if written {
            InsertStep::ReadId(self.retrieve_id_text(value))
        } else {
            InsertStep::Finished(false)
        }
    }

    /// After reading the identifier back: the insertion succeeded when an
    /// identifier came back, and a named row takes it; otherwise it failed
    /// and the row is unchanged.
    pub fn insert_read(&self, value: &mut MATRow, reply: &QueryReply) -> (b: bool)
        ensures
            match reply_id(*reply) {
                Some(id) => b && *final(value) == with_id(*old(value), id),
                None => !b && *final(value) == *old(value),
            },
    {
        match reply {
            QueryReply::Row(cols) => {
                if cols.len() > 0 {
                    match decode_int(&cols[0]) {
                        Some(id) => {
                            value.set_id(id);
                            true
                        },
                        None => false,
                    }
                } else {
                    false
                }
            },
            _ => false,
        }
    }

    /// Whether a request that changes the database ran: the caller reports
    /// how many rows it changed, or nothing when it failed.
    pub fn succeeded(changed: Option<usize>) -> (b: bool)
        ensures
            b == changed is Some,
    {
        changed.is_some()
    }

    /// Adding `delta` to the reference count of the row of identifier `id`:
    /// on a closed database nothing is counted (`Ok(false)`); else the
    /// request whose outcome `ref_updated` reads.
    pub fn updt_ref(&self, db: &DBase, id: i32, delta: i32) -> (p: Plan<Result<bool, MATError>>)
        ensures
            match p {
                Plan::Answer(r) => !db.up && r == Ok::<bool, MATError>(false),
                Plan::Run(q) => db.up && q@ == ref_request(*self, id, delta),
            },
    {
        if db.up == false {
            return Plan::Answer(Ok(false));
        }
        let mut operation = String::from_str("`nb_ref` = `nb_ref` + ");
        append_int(&mut operation, delta);
        let mut filter = String::from_str("`id` = ");
        append_int(&mut filter, id);
        Plan::Run(self.update_text(operation.as_str(), filter.as_str()))
    }

    /// The outcome of a reference count update: a failed request is a
    /// database error; otherwise whether some row was counted.
    pub fn ref_updated(changed: Option<usize>) -> (r: Result<bool, MATError>)
        ensures
            match changed {
                None => r == Err::<bool, MATError>(MATError::DBError),
                Some(n) => r == Ok::<bool, MATError>(n > 0),
            },
    {
        match changed {
            None => Err(MATError::DBError),
            Some(n) => Ok(n > 0),
        }
    }

    /// The row that a line of columns stands for in this table.
    pub fn decode_row(&self, cols: &Vec<SqlValue>) -> (r: Option<MATRow>)
        ensures
            r == decoded_row(*self, cols@),
    {
        let needed: usize = if *self == MATable::Aliases { 2 } else { 3 };
        if cols.len() < needed {
            return None;
        }
        match self {
            MATable::Users => match (decode_int(&cols[0]), decode_text(&cols[1]), decode_text(&cols[2])) {
                (Some(id), Some(name), Some(pass)) => Some(MATRow::User { id, name, pass }),
                _ => None,
            },
            MATable::Aliases => match (decode_int(&cols[0]), decode_text(&cols[1])) {
                (Some(id), Some(name)) => Some(MATRow::Alias { id, name }),
                _ => None,
            },
            MATable::Domains => match (decode_int(&cols[0]), decode_text(&cols[1]), decode_int(&cols[2])) {
                (Some(id), Some(name), Some(nb_ref)) => Some(MATRow::Domain { id, name, nb_ref }),
                _ => None,
            },
            MATable::Address => match (decode_int(&cols[0]), decode_int(&cols[1]), decode_int(&cols[2])) {
                (Some(user), Some(alias), Some(domain)) => Some(MATRow::Address { user, alias, domain }),
                _ => None,
            },
        }
    }

    /// Selecting all columns of the rows that `filter` keeps: on a closed
    /// database, no row at once; else the query whose lines `select_rows`
    /// decodes.
    pub fn select(&self, db: &DBase, filter: String) -> (p: Plan<Result<(Vec<MATRow>, usize), MATError>>)
        ensures
            match p {
                Plan::Answer(r) => !db.up && (r matches Ok((v, n)) && v@.len() == 0 && n == 0),
                Plan::Run(q) => db.up && q@ == select_request(*self, "*"@, filter@),
            },
    {
        if db.up == false {
            return Plan::Answer(Ok((Vec::<MATRow>::new(), 0)));
        }
        Plan::Run(self.select_text("*", filter.as_str()))
    }

    /// The rows of a selection and their count: a failed query, or a line
    /// that does not hold a row of this table, is a database error.
    pub fn select_rows(&self, lines: Option<Vec<Vec<SqlValue>>>) -> (r: Result<(Vec<MATRow>, usize), MATError>)
        ensures
            lines is None ==> r == Err::<(Vec<MATRow>, usize), MATError>(MATError::DBError),
            lines is Some && !all_lines_decode(*self, lines.unwrap()@) ==> r == Err::<
                (Vec<MATRow>, usize),
                MATError,
            >(MATError::DBError),
            lines is Some && all_lines_decode(*self, lines.unwrap()@) ==> (r matches Ok((v, n))
                && n == v@.len() && rows_decode_to(*self, lines.unwrap()@, v@)),
    {
        let rows = match lines {
            None => return Err(MATError::DBError),
            Some(ls) => ls,
        };
        assert(lines == Some(rows));
        let mut ret: Vec<MATRow> = Vec::new();
        let mut nb: usize = 0;
        let count = rows.len();
        while nb < count
            invariant
                lines == Some(rows),
                count == rows@.len(),
                nb <= count,
                ret@.len() == nb,
                forall|i: int| 0 <= i < nb ==> decoded_row(*self, #[trigger] rows@[i]@) == Some(ret@[i]),
            decreases count - nb,
        {
            match self.decode_row(&rows[nb]) {
                Some(entity) => {
                    ret.push(entity);
                    nb = nb + 1;
                },
                None => {
                    assert(!(decoded_row(*self, rows@[nb as int]@) is Some));
                    assert(!all_lines_decode(*self, rows@));
                    return Err(MATError::DBError);
                },
            }
        }
        Ok((ret, nb))
    }
}


/// A line selected from a table becomes that table's row by column
/// position: the columns come in the order of the table's definition
/// (users: id, name, pass; aliases: id, name; domains: id, name, nb_ref;
/// addresses: user, alias, domain).
pub proof fn lemma_selected_columns_in_order(i: i64, j: i64, k: i64, n: String, m: String)
    requires
        i32::MIN <= i <= i32::MAX,
        i32::MIN <= j <= i32::MAX,
        i32::MIN <= k <= i32::MAX,
    ensures
        decoded_row(MATable::Users, seq![SqlValue::Integer(i), SqlValue::Text(n), SqlValue::Text(m)])
            == Some(MATRow::User { id: i as i32, name: n, pass: m }),
        decoded_row(MATable::Aliases, seq![SqlValue::Integer(i), SqlValue::Text(n)]) == Some(
            MATRow::Alias { id: i as i32, name: n },
        ),
        decoded_row(MATable::Domains, seq![SqlValue::Integer(i), SqlValue::Text(n), SqlValue::Integer(k)])
            == Some(MATRow::Domain { id: i as i32, name: n, nb_ref: k as i32 }),
        decoded_row(
            MATable::Address,
            seq![SqlValue::Integer(i), SqlValue::Integer(j), SqlValue::Integer(k)],
        ) == Some(MATRow::Address { user: i as i32, alias: j as i32, domain: k as i32 }),
{
}

/// Deleting by name asks for the rows whose `name` column equals the row's
/// name written between single quotes; addresses are deleted by their user,
/// also between quotes.
pub proof fn lemma_delete_by_name_filter(r: MATRow)
    ensures
        match r {
            MATRow::User { id, name, pass } => name_or_user_filter(r) == "where `name` = "@
                + seq!['\''] + name@ + seq!['\''],
            MATRow::Alias { id, name } => name_or_user_filter(r) == "where `name` = "@ + seq![
                '\'',
            ] + name@ + seq!['\''],
            MATRow::Domain { id, name, nb_ref } => name_or_user_filter(r) == "where `name` = "@
                + seq!['\''] + name@ + seq!['\''],
            MATRow::Address { user, alias, domain } => name_or_user_filter(r) == "where `user` = "@
                + seq!['\''] + int_text(user as int) + seq!['\''],
        },
{
    match r {
        MATRow::User { id, name, pass } => {
            assert(name_or_user_filter(r) =~= "where `name` = "@ + seq!['\''] + name@ + seq!['\'']);
        },
        MATRow::Alias { id, name } => {
            assert(name_or_user_filter(r) =~= "where `name` = "@ + seq!['\''] + name@ + seq!['\'']);
        },
        MATRow::Domain { id, name, nb_ref } => {
            assert(name_or_user_filter(r) =~= "where `name` = "@ + seq!['\''] + name@ + seq!['\'']);
        },
        MATRow::Address { user, alias, domain } => {
            assert(name_or_user_filter(r) =~= "where `user` = "@ + seq!['\''] + int_text(user as int)
                + seq!['\'']);
        },
    }
}

/// Deleting by identifier asks for the row whose `id` column is the row's
/// identifier; an address is picked by its alias and its domain.
pub proof fn lemma_delete_by_id_filter(r: MATRow)
    ensures
        match r {
            MATRow::User { id, name, pass } => id_filter(r) == "where `id` = "@ + int_text(id as int),
            MATRow::Alias { id, name } => id_filter(r) == "where `id` = "@ + int_text(id as int),
            MATRow::Domain { id, name, nb_ref } => id_filter(r) == "where `id` = "@ + int_text(
                id as int,
            ),
            MATRow::Address { user, alias, domain } => id_filter(r) == "where `alias` = "@
                + int_text(alias as int) + " and `domain` = "@ + int_text(domain as int),
        },
{
}

/// The lookup of a named row selects the `id` of the row of that name in
/// the row's own table; the lookup of an address selects its user by its
/// alias and domain. Rows of different names get different lookups.
pub proof fn lemma_lookup_by_name(r: MATRow, other: MATRow)
    ensures
        match r {
            MATRow::User { id, name, pass } => retrieve_request(r) == "select `id` from "@
                + "Users"@ + " where `name` = "@ + seq!['\''] + name@ + seq!['\''],
            MATRow::Alias { id, name } => retrieve_request(r) == "select `id` from "@ + "Aliases"@
                + " where `name` = "@ + seq!['\''] + name@ + seq!['\''],
            MATRow::Domain { id, name, nb_ref } => retrieve_request(r) == "select `id` from "@
                + "Domains"@ + " where `name` = "@ + seq!['\''] + name@ + seq!['\''],
            MATRow::Address { user, alias, domain } => retrieve_request(r)
                == "select `user` from "@ + "Address"@ + " where `alias` = "@ + seq!['\'']
                + int_text(alias as int) + seq!['\''] + " and `domain` = "@ + int_text(
                domain as int,
            ),
        },
        is_named(r) && is_named(other) && table_of(r) == table_of(other) && raw_name(r)
            != raw_name(other) ==> retrieve_request(r) != retrieve_request(other),
{
    let q = seq!['\''];
    match r {
        MATRow::User { id, name, pass } => {
            assert(retrieve_request(r) =~= "select `id` from "@ + "Users"@ + " where `name` = "@ + q + name@ + q);
        },
        MATRow::Alias { id, name } => {
            assert(retrieve_request(r) =~= "select `id` from "@ + "Aliases"@ + " where `name` = "@ + q + name@ + q);
        },
        MATRow::Domain { id, name, nb_ref } => {
            assert(retrieve_request(r) =~= "select `id` from "@ + "Domains"@ + " where `name` = "@ + q + name@ + q);
        },
        MATRow::Address { user, alias, domain } => {
            assert(retrieve_request(r) =~= "select `user` from "@ + "Address"@ + " where `alias` = "@ + q
                + int_text(alias as int) + q + " and `domain` = "@ + int_text(domain as int));
        },
    }
    if is_named(r) && is_named(other) && table_of(r) == table_of(other) && raw_name(r) != raw_name(other) {
        let prefix = "select `id` from "@ + table_name(table_of(r)) + " where `name` = "@ + q;
        let a = retrieve_request(r);
        let b = retrieve_request(other);
        assert(a =~= prefix + raw_name(r) + q);
        assert(b =~= prefix + raw_name(other) + q);
        if a == b {
            assert(a.len() == b.len());
            assert(raw_name(r).len() == raw_name(other).len());
            assert forall|k: int| 0 <= k < raw_name(r).len() implies raw_name(r)[k] == raw_name(other)[k] by {
                assert(a[prefix.len() + k] == raw_name(r)[k]);
                assert(b[prefix.len() + k] == raw_name(other)[k]);
            }
            assert(raw_name(r) =~= raw_name(other));
        }
    }
}

/// The request that creates each table, in full: the address table is
/// keyed by its alias and domain, and its columns refer to the other
/// tables.
pub proof fn lemma_create_texts()
    ensures
        create_request(MATable::Users) == "create table "@ + "Users"@ + " ( "@
            + "`id` INTEGER PRIMARY KEY AUTOINCREMENT, `name` TEXT NOT NULL, `pass` TEXT NOT NULL"@
            + " )"@,
        create_request(MATable::Aliases) == "create table "@ + "Aliases"@ + " ( "@
            + "`id` INTEGER PRIMARY KEY AUTOINCREMENT, `name` TEXT NOT NULL"@ + " )"@,
        create_request(MATable::Domains) == "create table "@ + "Domains"@ + " ( "@
            + "`id` INTEGER PRIMARY KEY AUTOINCREMENT, `name` TEXT NOT NULL, `nb_ref` INTEGER NOT NULL"@
            + " )"@,
        create_request(MATable::Address) == "create table "@ + "Address"@ + " ( "@
            + "`user` INTEGER ,`alias` INTEGER , `domain` INTEGER , FOREIGN KEY(`user`) REFERENCES Users(`id`) , FOREIGN KEY(`alias`) REFERENCES Aliases(`id`) , FOREIGN KEY(`domain`) REFERENCES Domains(`id`) ,  PRIMARY KEY(`alias`,`domain`)"@
            + " )"@,
{
}


/// The other requests in full: dropping, selecting, checking a name,
/// deleting, counting a reference, and inserting each kind of row.
pub proof fn lemma_request_texts(t: MATable, r: MATRow, what: Seq<char>, filter: Seq<char>, name: Seq<char>, id: i32, delta: i32)
    ensures
        ({
            let n = if t == MATable::Users {
                "Users"@
            } else if t == MATable::Aliases {
                "Aliases"@
            } else if t == MATable::Domains {
                "Domains"@
            } else {
                "Address"@
            };
            let q = seq!['\''];
            &&& drop_request(t) == "drop table "@ + n
            &&& select_request(t, what, filter) == "select "@ + what + " from "@ + n + " "@ + filter
            &&& exist_request(t, name) == "select "@ + "`name`"@ + " from "@ + n + " "@
                + "where `name` = "@ + q + name + q
            &&& delete_request(t, filter) == "delete from "@ + n + " "@ + filter
            &&& ref_request(t, id, delta) == "update "@ + n + " set "@ + "`nb_ref` = `nb_ref` + "@
                + int_text(delta as int) + " where "@ + "`id` = "@ + int_text(id as int)
            &&& insert_request(t, r) == "insert into "@ + n + " ( "@ + match r {
                MATRow::User { .. } => "name, pass"@,
                MATRow::Alias { .. } => "name"@,
                MATRow::Domain { .. } => "name, nb_ref"@,
                MATRow::Address { .. } => "user, alias, domain"@,
            } + " ) values ( "@ + match r {
                MATRow::User { id, name, pass } => q + name@ + q + ", "@ + q + pass@ + q,
                MATRow::Alias { id, name } => q + name@ + q,
                MATRow::Domain { id, name, nb_ref } => q + name@ + q + ", "@ + int_text(nb_ref as int),
                MATRow::Address { user, alias, domain } => int_text(user as int) + ", "@ + int_text(
                    alias as int,
                ) + ", "@ + int_text(domain as int),
            } + " )"@
        }),
{
    let q = seq!['\''];
    assert(exist_request(t, name) =~= "select "@ + "`name`"@ + " from "@ + table_name(t) + " "@
        + "where `name` = "@ + q + name + q);
    match r {
        MATRow::User { id, name, pass } => {
            assert(insert_columns(r).1 =~= q + name@ + q + ", "@ + q + pass@ + q);
        },
        MATRow::Alias { id, name } => {
            assert(insert_columns(r).1 =~= q + name@ + q);
        },
        MATRow::Domain { id, name, nb_ref } => {
            assert(insert_columns(r).1 =~= q + name@ + q + ", "@ + int_text(nb_ref as int));
        },
        MATRow::Address { user, alias, domain } => {},
    }
}


/// A column holds an identifier only when it is an integer that fits an
/// `i32`, and holds text only when it is text; the identifier a lookup
/// reads is the first column of the first row, and a failed or empty reply
/// holds none.
pub proof fn lemma_column_reading(i: i64, t: String, cols: Seq<SqlValue>)
    ensures
        i32::MIN <= i <= i32::MAX ==> int_column(SqlValue::Integer(i)) == Some(i as i32),
        !(i32::MIN <= i <= i32::MAX) ==> int_column(SqlValue::Integer(i)) is None,
        int_column(SqlValue::Text(t)) is None,
        int_column(SqlValue::Null) is None,
        int_column(SqlValue::Other) is None,
        text_column(SqlValue::Text(t)) == Some(t),
        text_column(SqlValue::Integer(i)) is None,
        text_column(SqlValue::Null) is None,
        text_column(SqlValue::Other) is None,
        reply_id(QueryReply::Failed) is None,
        reply_id(QueryReply::Empty) is None,
        cols.len() > 0 && cols[0] == SqlValue::Integer(i) && i32::MIN <= i <= i32::MAX ==> (forall|v: Vec<SqlValue>| v@ == cols ==> #[trigger] reply_id(QueryReply::Row(v)) == Some(i as i32)),
        cols.len() == 0 ==> (forall|v: Vec<SqlValue>| v@ == cols ==> #[trigger] reply_id(QueryReply::Row(v)) is None),
{
}

} // verus!
