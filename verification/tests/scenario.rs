use rusqlite::types::ValueRef;
use rusqlite::Connection;

use mailalias::base::DBase;
use mailalias::error::MATError;
use mailalias::webapi::base32;
use mailalias::row::MATRow;
use mailalias::table::{InsertStep, MATable, Plan, QueryReply, SqlValue};
use mailalias::webapi::alias::{Address, AliasAction, AliasEvent, NewAlias};
use mailalias::webapi::domain::{submitted_domain, Domain};
use mailalias::webapi::user::{submitted_user, AddressListing, ListAction, ListEvent, User};
use mailalias::webapi::added_reply;

// A small runner that carries the library's requests out on SQLite.

fn value_of(v: ValueRef<'_>) -> SqlValue {
    match v {
        ValueRef::Null => SqlValue::Null,
        ValueRef::Integer(i) => SqlValue::Integer(i),
        ValueRef::Text(bytes) => match std::str::from_utf8(bytes) {
            Ok(s) => SqlValue::Text(s.to_string()),
            Err(_) => SqlValue::Other,
        },
        _ => SqlValue::Other,
    }
}

fn execute(conn: &Connection, req: &str) -> Option<usize> {
    conn.execute(req, []).ok()
}

fn lines(conn: &Connection, req: &str, only_first: bool) -> rusqlite::Result<Vec<Vec<SqlValue>>> {
    let mut stmt = conn.prepare(req)?;
    let columns = stmt.column_count();
    let mut rows = stmt.query([])?;
    let mut out = Vec::new();
    while let Some(row) = rows.next()? {
        let mut values = Vec::new();
        for i in 0..columns {
            values.push(value_of(row.get_ref(i)?));
        }
        out.push(values);
        if only_first {
            break;
        }
    }
    Ok(out)
}

fn query_first(conn: &Connection, req: &str) -> QueryReply {
    match lines(conn, req, true) {
        Ok(mut v) => match v.pop() {
            Some(row) => QueryReply::Row(row),
            None => QueryReply::Empty,
        },
        Err(_) => QueryReply::Failed,
    }
}

fn change(conn: &Connection, plan: Plan<bool>) -> bool {
    match plan {
        Plan::Answer(b) => b,
        Plan::Run(q) => MATable::succeeded(execute(conn, &q)),
    }
}

fn find(conn: &Connection, db: &DBase, t: MATable, row: &MATRow) -> i32 {
    match t.find(db, row) {
        Plan::Answer(i) => i,
        Plan::Run(q) => MATable::found_id(&query_first(conn, &q)),
    }
}

fn insert(conn: &Connection, db: &DBase, t: MATable, value: &mut MATRow) -> bool {
    let mut step = t.insert(db, value);
    loop {
        step = match step {
            InsertStep::Finished(b) => return b,
            InsertStep::CheckName(q) => t.insert_checked(value, &query_first(conn, &q)),
            InsertStep::Write(q) => t.insert_written(value, MATable::succeeded(execute(conn, &q))),
            InsertStep::ReadId(q) => return t.insert_read(value, &query_first(conn, &q)),
        }
    }
}

fn select(conn: &Connection, db: &DBase, t: MATable, filter: String) -> Result<(Vec<MATRow>, usize), MATError> {
    match t.select(db, filter) {
        Plan::Answer(r) => r,
        Plan::Run(q) => t.select_rows(lines(conn, &q, false).ok()),
    }
}

fn init(fname: &String, conn: &Connection) -> DBase {
    let (db, requests) = DBase::init(fname);
    for q in requests {
        execute(conn, &q);
    }
    db
}

fn release(db: &mut DBase, conn: &Connection) {
    for q in db.release() {
        execute(conn, &q);
    }
}

fn user(name: &str, pass: &str) -> MATRow {
    MATRow::User { id: 0, name: name.to_string(), pass: pass.to_string() }
}

fn alias(name: &str) -> MATRow {
    MATRow::Alias { id: 0, name: name.to_string() }
}

fn domain(name: &str, nb_ref: i32) -> MATRow {
    MATRow::Domain { id: 0, name: name.to_string(), nb_ref }
}

fn test_create_drop(conn: &Connection, db: &DBase) -> bool {
    let mut result = true;
    for t in [MATable::Users, MATable::Aliases, MATable::Domains, MATable::Address] {
        change(conn, t.drop(db));
        result &= change(conn, t.create(db)) & change(conn, t.drop(db));
    }
    result
}

fn insert_then_delete(conn: &Connection, db: &DBase, t: MATable, mut rows: Vec<MATRow>, by_id: bool) -> bool {
    let mut result = true;
    for r in rows.iter_mut() {
        result &= insert(conn, db, t, r);
    }
    // inserting the last one again fails: its name is taken
    let last = rows.len() - 1;
    result &= !insert(conn, db, t, &mut rows[last]);
    for r in rows.iter() {
        result &= if by_id { change(conn, t.delete_by_id(db, r)) } else { change(conn, t.delete_by_name(db, r)) };
    }
    result
}

fn insert_addresses(conn: &Connection, db: &DBase, rows: usize) -> (bool, Vec<MATRow>) {
    let mut ok = true;
    let mut usr = user("Aa", "Aa");
    let mut uusr = user("bB", "Bb");
    ok &= insert(conn, db, MATable::Users, &mut usr);
    ok &= insert(conn, db, MATable::Users, &mut uusr);
    let mut als = alias("aA");
    let mut aals = alias("Bb");
    ok &= insert(conn, db, MATable::Aliases, &mut als);
    ok &= insert(conn, db, MATable::Aliases, &mut aals);
    let mut dmn = domain("AA", 0xFFFF);
    let mut ddmn = domain("bb", -423654);
    ok &= insert(conn, db, MATable::Domains, &mut dmn);
    ok &= insert(conn, db, MATable::Domains, &mut ddmn);
    let all = vec![
        MATRow::Address { user: usr.id(), alias: als.id(), domain: dmn.id() },
        MATRow::Address { user: uusr.id(), alias: aals.id(), domain: dmn.id() },
        MATRow::Address { user: usr.id(), alias: als.id(), domain: ddmn.id() },
        MATRow::Address { user: uusr.id(), alias: aals.id(), domain: ddmn.id() },
    ];
    (ok, all.into_iter().take(rows).collect())
}

fn test_insert_delete(conn: &Connection, db: &DBase) -> bool {
    let mut result = true;
    result &= insert_then_delete(conn, db, MATable::Users,
        vec![user("Aa", "Aa"), user("bB", "Bb"), user("cC", "cC"), user("Dd", "dD")], false);
    result &= insert_then_delete(conn, db, MATable::Aliases,
        vec![alias("Aa"), alias("bB"), alias("Cc"), alias("dD")], false);
    result &= insert_then_delete(conn, db, MATable::Domains,
        vec![domain("aa", -423654), domain("BB", 0xFFFF), domain("CC", 0), domain("dd", 0o100)], true);
    let (_, mut addresses) = insert_addresses(conn, db, 4);
    for a in addresses.iter_mut() {
        result &= insert(conn, db, MATable::Address, a);
    }
    result &= change(conn, MATable::Address.delete_by_id(db, &addresses[0]));
    result &= change(conn, MATable::Address.delete_by_id(db, &addresses[1]));
    result &= change(conn, MATable::Address.delete_by_name(db, &addresses[2]));
    result &= change(conn, MATable::Address.delete_by_name(db, &addresses[3]));
    result
}

fn test_select(conn: &Connection, db: &DBase) -> bool {
    let (_, mut addresses) = insert_addresses(conn, db, 2);
    for a in addresses.iter_mut() {
        insert(conn, db, MATable::Address, a);
    }
    let mut result = true;
    for t in [MATable::Users, MATable::Aliases, MATable::Domains, MATable::Address] {
        result &= match select(conn, db, t, String::from("")) {
            Ok((_, nb)) => nb == 2,
            Err(_) => false,
        };
    }
    result
}

#[test]
pub fn full_test_sql() {
    let path = String::from("./test.db");
    // where the file cannot be opened here, the same run goes to memory
    let conn = match Connection::open(&path) {
        Err(e) => {
            println!("{}", e);
            match Connection::open_in_memory() {
                Ok(co) => co,
                Err(_) => return,
            }
        }
        Ok(co) => co,
    };

    let metadb = init(&path, &conn);
    assert_eq!(test_create_drop(&conn, &metadb), true);

    let mut metadb = init(&path, &conn);
    assert_eq!(test_insert_delete(&conn, &metadb), true);
    release(&mut metadb, &conn);

    let mut metadb = init(&path, &conn);
    assert_eq!(test_select(&conn, &metadb), true);
    release(&mut metadb, &conn);

    if let Err((_, e)) = conn.close() {
        println!("{}", e);
    };
}

// The web requests, answered as the server answers them.

fn submit_user(conn: &Connection, db: &DBase, name: &str) -> Result<String, u16> {
    let mut form = User::new(name.to_string());
    let mut row = submitted_user(&mut form).map_err(|s| s.code)?;
    let inserted = insert(conn, db, MATable::Users, &mut row);
    added_reply(inserted, &row).map_err(|s| s.code)
}

fn submit_domain(conn: &Connection, db: &DBase, name: &str) -> Result<String, u16> {
    let mut form = Domain::new(name.to_string());
    let mut row = submitted_domain(&mut form).map_err(|s| s.code)?;
    let inserted = insert(conn, db, MATable::Domains, &mut row);
    added_reply(inserted, &row).map_err(|s| s.code)
}

fn new_alias(conn: &Connection, db: &DBase, user: &str, domain: &str, draw: (usize, usize)) -> Result<String, u16> {
    let mut form = Address::new(user.to_string(), domain.to_string());
    let (mut request, mut action) = NewAlias::start(&mut form).map_err(|s| s.code)?;
    loop {
        let event = match action {
            AliasAction::Reply(r) => return r.map_err(|s| s.code),
            AliasAction::Find(t, row) => AliasEvent::Found(find(conn, db, t, &row)),
            AliasAction::Insert(t, mut row) => {
                let ok = insert(conn, db, t, &mut row);
                AliasEvent::Inserted(ok, row)
            },
            AliasAction::Delete(t, row) => {
                change(conn, t.delete_by_id(db, &row));
                AliasEvent::Deleted
            },
            AliasAction::Draw => AliasEvent::Drawn(base32(draw.0), base32(draw.1)),
            AliasAction::UpdateRef(id) => AliasEvent::Updated(match MATable::Domains.updt_ref(db, id, 1) {
                Plan::Answer(r) => r,
                Plan::Run(q) => MATable::ref_updated(execute(conn, &q)),
            }),
        };
        action = request.step(event);
    }
}

fn list_address(conn: &Connection, db: &DBase, name: &str) -> Result<String, u16> {
    let mut form = User::new(name.to_string());
    let (mut listing, mut action) = AddressListing::start(&mut form).map_err(|s| s.code)?;
    loop {
        let event = match action {
            ListAction::Reply(r) => return r.map_err(|s| s.code),
            ListAction::Find(t, row) => ListEvent::Found(find(conn, db, t, &row)),
            ListAction::Select(t, filter) => ListEvent::Selected(select(conn, db, t, filter)),
        };
        action = listing.step(event);
    }
}

#[test]
pub fn full_test_webapi() {
    let conn = Connection::open_in_memory().unwrap();
    let path = String::from(":memory:");
    let db = init(&path, &conn);

    // a user is added once; adding it again is a conflict
    assert_eq!(submit_user(&conn, &db, "lama"), Ok("'lama' added in base !".to_string()));
    assert_eq!(submit_user(&conn, &db, "lama"), Err(409));

    // the same for a domain
    assert_eq!(submit_domain(&conn, &db, "lama.fr"), Ok("'lama.fr' added in base !".to_string()));
    assert_eq!(submit_domain(&conn, &db, "lama.fr"), Err(409));

    // an alias for a known user and domain; again, with other random names
    let first = new_alias(&conn, &db, "lama", "lama.fr", (1, 2));
    assert!(first.is_ok());
    assert!(first.unwrap().ends_with("@'lama.fr'"));
    assert!(new_alias(&conn, &db, "lama", "lama.fr", (3, 4)).is_ok());

    // an unknown user gets no alias
    assert_ne!(new_alias(&conn, &db, "UNKNOWN", "lama.fr", (5, 6)).err(), None);

    // an unknown domain is added on the way
    assert!(new_alias(&conn, &db, "lama", "UN.KNOWN", (7, 8)).is_ok());
    assert_eq!(submit_domain(&conn, &db, "UN.KNOWN"), Err(409));

    // the listing shows the three addresses of the user
    let listing = list_address(&conn, &db, "lama").unwrap();
    assert_eq!(listing.lines().count(), 3);
    assert!(listing.contains("@'UN.KNOWN'"));

    // an unknown user has no content
    assert_eq!(list_address(&conn, &db, "UNKNOWN"), Err(204));
}
