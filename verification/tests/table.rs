use mailalias::base::DBase;
use mailalias::error::MATError;
use mailalias::row::MATRow;
use mailalias::table::{InsertStep, MATable, Plan, QueryReply, SqlValue};

fn open_db() -> DBase {
    DBase::new(&"./test.db".to_string())
}

fn closed_db() -> DBase {
    let mut db = open_db();
    db.close();
    db
}

fn run(p: Plan<bool>) -> String {
    match p {
        Plan::Run(q) => q,
        Plan::Answer(_) => panic!("expected a request"),
    }
}

#[test]
fn table_names() {
    assert_eq!(MATable::get(MATable::Users), "Users");
    assert_eq!(MATable::get(MATable::Aliases), "Aliases");
    assert_eq!(MATable::Domains._get(), "Domains");
    assert_eq!(MATable::Address._get(), "Address");
}

#[test]
fn create_and_drop_requests() {
    let db = open_db();
    assert_eq!(
        run(MATable::Aliases.create(&db)),
        "create table Aliases ( `id` INTEGER PRIMARY KEY AUTOINCREMENT, `name` TEXT NOT NULL )"
    );
    assert_eq!(run(MATable::Domains.drop(&db)), "drop table Domains");
}

#[test]
fn closed_database_answers_at_once() {
    let db = closed_db();
    let row = MATRow::Alias { id: 3, name: "Aa".to_string() };
    assert!(matches!(MATable::Users.create(&db), Plan::Answer(false)));
    assert!(matches!(MATable::Users.drop(&db), Plan::Answer(false)));
    assert!(matches!(MATable::Aliases.delete_by_id(&db, &row), Plan::Answer(false)));
    assert!(matches!(MATable::Aliases.delete_by_name(&db, &row), Plan::Answer(false)));
    assert!(matches!(MATable::Aliases.find(&db, &row), Plan::Answer(-1)));
    assert!(matches!(MATable::Aliases.insert(&db, &row), InsertStep::Finished(false)));
    assert!(matches!(MATable::Domains.updt_ref(&db, 4, 1), Plan::Answer(Ok(false))));
    match MATable::Aliases.select(&db, String::new()) {
        Plan::Answer(Ok((v, n))) => {
            assert!(v.is_empty());
            assert_eq!(n, 0);
        },
        _ => panic!("expected an empty answer"),
    }
    assert!(!MATable::Aliases.update_by_id(&db, &row));
}

#[test]
fn update_operations() {
    let db = open_db();
    let row = MATRow::Alias { id: 3, name: "Aa".to_string() };
    assert!(MATable::Aliases.update_by_id(&db, &row));
    assert!(!MATable::Aliases.update_by_name(&db, &row));
    match MATable::Domains.updt_ref(&db, 4, 1) {
        Plan::Run(q) => assert_eq!(q, "update Domains set `nb_ref` = `nb_ref` + 1 where `id` = 4"),
        _ => panic!("expected a request"),
    }
    assert_eq!(MATable::ref_updated(None), Err(MATError::DBError));
    assert_eq!(MATable::ref_updated(Some(0)), Ok(false));
    assert_eq!(MATable::ref_updated(Some(1)), Ok(true));
    assert!(MATable::succeeded(Some(0)));
    assert!(!MATable::succeeded(None));
}

#[test]
fn delete_requests() {
    let db = open_db();
    let d = MATRow::Domain { id: 5, name: "aa".to_string(), nb_ref: -423654 };
    let adr = MATRow::Address { user: 1, alias: 2, domain: 3 };
    let u = MATRow::User { id: 0, name: "bB".to_string(), pass: "Bb".to_string() };
    assert_eq!(run(MATable::Domains.delete_by_id(&db, &d)), "delete from Domains where `id` = 5");
    assert_eq!(
        run(MATable::Address.delete_by_id(&db, &adr)),
        "delete from Address where `alias` = 2 and `domain` = 3"
    );
    assert_eq!(run(MATable::Users.delete_by_name(&db, &u)), "delete from Users where `name` = 'bB'");
    assert_eq!(run(MATable::Address.delete_by_name(&db, &adr)), "delete from Address where `user` = '1'");
}

#[test]
fn find_requests_and_replies() {
    let db = open_db();
    let u = MATRow::User { id: 0, name: "lama".to_string(), pass: "000000".to_string() };
    // the query goes to the row's own table, whatever the table asked
    match MATable::Domains.find(&db, &u) {
        Plan::Run(q) => assert_eq!(q, "select `id` from Users where `name` = 'lama'"),
        _ => panic!("expected a request"),
    }
    let adr = MATRow::Address { user: 1, alias: 2, domain: 3 };
    match MATable::Address.find(&db, &adr) {
        Plan::Run(q) => assert_eq!(q, "select `user` from Address where `alias` = '2' and `domain` = 3"),
        _ => panic!("expected a request"),
    }
    assert_eq!(MATable::found_id(&QueryReply::Row(vec![SqlValue::Integer(17)])), 17);
    assert_eq!(MATable::found_id(&QueryReply::Empty), -1);
    assert_eq!(MATable::found_id(&QueryReply::Failed), -1);
    assert_eq!(MATable::found_id(&QueryReply::Row(vec![SqlValue::Text("17".to_string())])), -1);
    assert_eq!(MATable::found_id(&QueryReply::Row(vec![SqlValue::Integer(1 << 40)])), -1);
    assert_eq!(MATable::found_id(&QueryReply::Row(vec![])), -1);
}

#[test]
fn insert_of_a_new_named_row() {
    let db = open_db();
    let t = MATable::Users;
    let mut u = MATRow::User { id: 0, name: "Aa".to_string(), pass: "Aa".to_string() };
    let step = t.insert(&db, &u);
    match step {
        InsertStep::CheckName(q) => assert_eq!(q, "select `name` from Users where `name` = 'Aa'"),
        _ => panic!("expected the name check"),
    }
    match t.insert_checked(&u, &QueryReply::Empty) {
        InsertStep::Write(q) => assert_eq!(q, "insert into Users ( name, pass ) values ( 'Aa', 'Aa' )"),
        _ => panic!("expected the write"),
    }
    match t.insert_written(&u, true) {
        InsertStep::ReadId(q) => assert_eq!(q, "select `id` from Users where `name` = 'Aa'"),
        _ => panic!("expected the read back"),
    }
    assert!(t.insert_read(&mut u, &QueryReply::Row(vec![SqlValue::Integer(4)])));
    assert_eq!(u.id(), 4);
}

#[test]
fn insert_of_an_existing_name_fails() {
    let db = open_db();
    let t = MATable::Aliases;
    let a = MATRow::Alias { id: 0, name: "dD".to_string() };
    assert!(matches!(t.insert(&db, &a), InsertStep::CheckName(_)));
    let found = QueryReply::Row(vec![SqlValue::Text("dD".to_string())]);
    assert!(matches!(t.insert_checked(&a, &found), InsertStep::Finished(false)));
    assert!(matches!(t.insert_checked(&a, &QueryReply::Failed), InsertStep::Finished(false)));
}

#[test]
fn insert_failures_later_on() {
    let t = MATable::Domains;
    let mut d = MATRow::Domain { id: 0, name: "BB".to_string(), nb_ref: 0xFFFF };
    match t.insert_checked(&d, &QueryReply::Empty) {
        InsertStep::Write(q) => assert_eq!(q, "insert into Domains ( name, nb_ref ) values ( 'BB', 65535 )"),
        _ => panic!("expected the write"),
    }
    assert!(matches!(t.insert_written(&d, false), InsertStep::Finished(false)));
    assert!(!t.insert_read(&mut d, &QueryReply::Empty));
    assert_eq!(d.id(), 0);
}

#[test]
fn insert_of_an_address_skips_the_name_check() {
    let db = open_db();
    let t = MATable::Address;
    let mut adr = MATRow::Address { user: 1, alias: 2, domain: -3 };
    match t.insert(&db, &adr) {
        InsertStep::Write(q) => assert_eq!(q, "insert into Address ( user, alias, domain ) values ( 1, 2, -3 )"),
        _ => panic!("expected the write"),
    }
    assert!(t.insert_read(&mut adr, &QueryReply::Row(vec![SqlValue::Integer(1)])));
    assert!(matches!(adr, MATRow::Address { user: 1, alias: 2, domain: -3 }));
}

#[test]
fn select_requests_and_rows() {
    let db = open_db();
    match MATable::Users.select(&db, String::new()) {
        Plan::Run(q) => assert_eq!(q, "select * from Users "),
        _ => panic!("expected a request"),
    }
    let lines = vec![
        vec![SqlValue::Integer(1), SqlValue::Text("Aa".to_string()), SqlValue::Text("pw".to_string())],
        vec![SqlValue::Integer(2), SqlValue::Text("bB".to_string()), SqlValue::Text("Bb".to_string())],
    ];
    let (rows, n) = MATable::Users.select_rows(Some(lines)).unwrap();
    assert_eq!(n, 2);
    assert_eq!(rows.len(), 2);
    assert_eq!(rows[1].id(), 2);
    assert_eq!(rows[1].name(), "'bB'");
    let address = vec![vec![SqlValue::Integer(1), SqlValue::Integer(2), SqlValue::Integer(3)]];
    let (rows, n) = MATable::Address.select_rows(Some(address)).unwrap();
    assert_eq!(n, 1);
    assert!(matches!(rows[0], MATRow::Address { user: 1, alias: 2, domain: 3 }));
}

#[test]
fn select_failures() {
    assert_eq!(MATable::Users.select_rows(None).unwrap_err(), MATError::DBError);
    let wrong_type = vec![vec![SqlValue::Integer(1), SqlValue::Integer(2), SqlValue::Text("x".to_string())]];
    assert_eq!(MATable::Users.select_rows(Some(wrong_type)).unwrap_err(), MATError::DBError);
    let too_short = vec![vec![SqlValue::Integer(1), SqlValue::Text("x".to_string())]];
    assert_eq!(MATable::Domains.select_rows(Some(too_short)).unwrap_err(), MATError::DBError);
    let null = vec![vec![SqlValue::Null, SqlValue::Text("x".to_string())]];
    assert_eq!(MATable::Aliases.select_rows(Some(null)).unwrap_err(), MATError::DBError);
    let (rows, n) = MATable::Aliases.select_rows(Some(vec![])).unwrap();
    assert!(rows.is_empty());
    assert_eq!(n, 0);
}
