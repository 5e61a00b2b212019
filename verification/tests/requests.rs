use mailalias::error::MATError;
use mailalias::webapi::base32;
use mailalias::row::MATRow;
use mailalias::table::MATable;
use mailalias::webapi::alias::{Address, AliasAction, AliasEvent, AliasStage, NewAlias};
use mailalias::webapi::user::{AddressListing, ListAction, ListEvent, ListStage, User};

fn started(user: &str, domain: &str) -> (NewAlias, AliasAction) {
    let mut form = Address::new(user.to_string(), domain.to_string());
    NewAlias::start(&mut form).unwrap()
}

fn with_id(row: &MATRow, id: i32) -> MATRow {
    let mut r = row.duplicate();
    r.set_id(id);
    r
}

#[test]
fn new_alias_success() {
    let (mut st, a) = started("lama", "lama.fr");
    match a {
        AliasAction::Find(MATable::Users, MATRow::User { id: 0, ref name, ref pass }) => {
            assert_eq!(name, "lama");
            assert_eq!(pass, "000000");
        },
        _ => panic!("expected the user lookup"),
    }
    let a = st.step(AliasEvent::Found(3));
    let dmn = match a {
        AliasAction::Insert(MATable::Domains, row) => row,
        _ => panic!("expected the domain insertion"),
    };
    assert_eq!(dmn.name(), "'lama.fr'");
    let a = st.step(AliasEvent::Inserted(true, with_id(&dmn, 9)));
    assert!(matches!(a, AliasAction::Draw));
    let a = st.step(AliasEvent::Drawn(base32(0), base32(1)));
    let als = match a {
        AliasAction::Insert(MATable::Aliases, row) => row,
        _ => panic!("expected the alias insertion"),
    };
    if usize::BITS == 64 {
        assert_eq!(als.name(), "'aaaaaaaaaaaa.baaaaaaaaaaa'");
    }
    let a = st.step(AliasEvent::Inserted(true, with_id(&als, 21)));
    let adr = match a {
        AliasAction::Insert(MATable::Address, row) => row,
        _ => panic!("expected the address insertion"),
    };
    assert!(matches!(adr, MATRow::Address { user: 3, alias: 21, domain: 9 }));
    let a = st.step(AliasEvent::Inserted(true, adr));
    assert!(matches!(a, AliasAction::UpdateRef(9)));
    let a = st.step(AliasEvent::Updated(Ok(true)));
    match a {
        AliasAction::Reply(Ok(text)) => {
            if usize::BITS == 64 {
                assert_eq!(text, "aaaaaaaaaaaa.baaaaaaaaaaa@'lama.fr'");
            }
        },
        _ => panic!("expected the answer"),
    }
    assert_eq!(st.stage, AliasStage::Over);
}

#[test]
fn new_alias_for_an_unknown_user() {
    let (mut st, _) = started("UNKNOWN", "lama.fr");
    match st.step(AliasEvent::Found(-1)) {
        AliasAction::Reply(Err(s)) => assert_eq!(s.code, 204),
        _ => panic!("expected a refusal"),
    }
}

#[test]
fn new_alias_with_a_known_domain_looks_it_up() {
    let (mut st, _) = started("lama", "UN.KNOWN");
    let dmn = match st.step(AliasEvent::Found(3)) {
        AliasAction::Insert(MATable::Domains, row) => row,
        _ => panic!("expected the domain insertion"),
    };
    match st.step(AliasEvent::Inserted(false, dmn)) {
        AliasAction::Find(MATable::Domains, row) => assert_eq!(row.name(), "'UN.KNOWN'"),
        _ => panic!("expected the domain lookup"),
    }
    assert!(matches!(st.step(AliasEvent::Found(5)), AliasAction::Draw));
    assert_eq!(st.dmn_id, 5);
}

#[test]
fn new_alias_with_a_bad_form() {
    let mut form = Address::new("lama".to_string(), "lama".to_string());
    assert_eq!(NewAlias::start(&mut form).unwrap_err().code, 400);
    let mut form = Address::new(String::new(), "lama.fr".to_string());
    assert_eq!(NewAlias::start(&mut form).unwrap_err().code, 400);
}

#[test]
fn new_alias_undoes_the_alias_when_the_address_fails() {
    let (mut st, _) = started("lama", "lama.fr");
    let dmn = match st.step(AliasEvent::Found(3)) {
        AliasAction::Insert(_, row) => row,
        _ => panic!(),
    };
    st.step(AliasEvent::Inserted(true, with_id(&dmn, 9)));
    let als = match st.step(AliasEvent::Drawn(base32(7), base32(8))) {
        AliasAction::Insert(_, row) => row,
        _ => panic!(),
    };
    let adr = match st.step(AliasEvent::Inserted(true, with_id(&als, 21))) {
        AliasAction::Insert(_, row) => row,
        _ => panic!(),
    };
    match st.step(AliasEvent::Inserted(false, adr)) {
        AliasAction::Delete(MATable::Aliases, row) => assert_eq!(row.id(), 21),
        _ => panic!("expected the alias to be removed"),
    }
    match st.step(AliasEvent::Deleted) {
        AliasAction::Reply(Err(s)) => assert_eq!(s.code, 500),
        _ => panic!("expected a failure"),
    }
}

#[test]
fn new_alias_undoes_both_when_the_count_fails() {
    let (mut st, _) = started("lama", "lama.fr");
    let dmn = match st.step(AliasEvent::Found(3)) {
        AliasAction::Insert(_, row) => row,
        _ => panic!(),
    };
    st.step(AliasEvent::Inserted(true, with_id(&dmn, 9)));
    let als = match st.step(AliasEvent::Drawn(base32(7), base32(8))) {
        AliasAction::Insert(_, row) => row,
        _ => panic!(),
    };
    let adr = match st.step(AliasEvent::Inserted(true, with_id(&als, 21))) {
        AliasAction::Insert(_, row) => row,
        _ => panic!(),
    };
    st.step(AliasEvent::Inserted(true, adr));
    assert!(matches!(st.step(AliasEvent::Updated(Err(MATError::DBError))), AliasAction::Delete(MATable::Aliases, MATRow::Alias { id: 21, .. })));
    assert!(matches!(st.step(AliasEvent::Deleted), AliasAction::Delete(MATable::Aliases, MATRow::Address { user: 3, alias: 21, domain: 9 })));
    match st.step(AliasEvent::Deleted) {
        AliasAction::Reply(Err(s)) => assert_eq!(s.code, 500),
        _ => panic!("expected a failure"),
    }
}

#[test]
fn new_alias_when_the_domain_is_not_counted() {
    let (mut st, _) = started("lama", "lama.fr");
    let dmn = match st.step(AliasEvent::Found(3)) {
        AliasAction::Insert(_, row) => row,
        _ => panic!(),
    };
    st.step(AliasEvent::Inserted(true, with_id(&dmn, 9)));
    let als = match st.step(AliasEvent::Drawn(base32(7), base32(8))) {
        AliasAction::Insert(_, row) => row,
        _ => panic!(),
    };
    let adr = match st.step(AliasEvent::Inserted(true, with_id(&als, 21))) {
        AliasAction::Insert(_, row) => row,
        _ => panic!(),
    };
    st.step(AliasEvent::Inserted(true, adr));
    match st.step(AliasEvent::Updated(Ok(false))) {
        AliasAction::Reply(Err(s)) => assert_eq!(s.code, 204),
        _ => panic!("expected a refusal"),
    }
}

#[test]
fn new_alias_report_out_of_turn() {
    let (mut st, _) = started("lama", "lama.fr");
    match st.step(AliasEvent::Deleted) {
        AliasAction::Reply(Err(s)) => assert_eq!(s.code, 500),
        _ => panic!("expected a failure"),
    }
    assert_eq!(st.stage, AliasStage::Over);
}

fn alias_row(id: i32, name: &str) -> MATRow {
    MATRow::Alias { id, name: name.to_string() }
}

fn domain_row(id: i32, name: &str) -> MATRow {
    MATRow::Domain { id, name: name.to_string(), nb_ref: 1 }
}

#[test]
fn listing_of_two_addresses() {
    let mut form = User::new("lama".to_string());
    let (mut st, a) = AddressListing::start(&mut form).unwrap();
    assert!(matches!(a, ListAction::Find(MATable::Users, _)));
    match st.step(ListEvent::Found(3)) {
        ListAction::Select(MATable::Address, q) => assert_eq!(q, "WHERE `user` = 3"),
        _ => panic!("expected the address selection"),
    }
    let rows = vec![
        MATRow::Address { user: 3, alias: 10, domain: 20 },
        MATRow::Address { user: 3, alias: 11, domain: 21 },
    ];
    match st.step(ListEvent::Selected(Ok((rows, 2)))) {
        ListAction::Select(MATable::Aliases, q) => assert_eq!(q, "where `id` = 10"),
        _ => panic!("expected the alias selection"),
    }
    match st.step(ListEvent::Selected(Ok((vec![alias_row(10, "a.b")], 1)))) {
        ListAction::Select(MATable::Domains, q) => assert_eq!(q, "where `id` = 20"),
        _ => panic!("expected the domain selection"),
    }
    match st.step(ListEvent::Selected(Ok((vec![domain_row(20, "lama.fr")], 1)))) {
        ListAction::Select(MATable::Aliases, q) => assert_eq!(q, "where `id` = 11"),
        _ => panic!("expected the next alias"),
    }
    st.step(ListEvent::Selected(Ok((vec![alias_row(11, "c.d")], 1))));
    match st.step(ListEvent::Selected(Ok((vec![domain_row(21, "UN.KNOWN")], 1)))) {
        ListAction::Reply(Ok(text)) => assert_eq!(text, "'a.b'@'lama.fr'\n'c.d'@'UN.KNOWN'\n"),
        _ => panic!("expected the listing"),
    }
    assert_eq!(st.stage, ListStage::Over);
}

#[test]
fn listing_of_an_unknown_user() {
    let mut form = User::new("UNKNOWN".to_string());
    let (mut st, _) = AddressListing::start(&mut form).unwrap();
    match st.step(ListEvent::Found(-1)) {
        ListAction::Reply(Err(s)) => assert_eq!(s.code, 204),
        _ => panic!("expected no content"),
    }
}

#[test]
fn listing_without_addresses() {
    let mut form = User::new("lama".to_string());
    let (mut st, _) = AddressListing::start(&mut form).unwrap();
    st.step(ListEvent::Found(3));
    match st.step(ListEvent::Selected(Ok((vec![], 0)))) {
        ListAction::Reply(Ok(text)) => assert_eq!(text, ""),
        _ => panic!("expected an empty listing"),
    }
}

#[test]
fn listing_failures() {
    let mut empty = User::new(String::new());
    assert_eq!(AddressListing::start(&mut empty).unwrap_err().code, 400);

    let mut form = User::new("lama".to_string());
    let (mut st, _) = AddressListing::start(&mut form).unwrap();
    st.step(ListEvent::Found(3));
    match st.step(ListEvent::Selected(Err(MATError::DBError))) {
        ListAction::Reply(Err(s)) => assert_eq!(s.code, 500),
        _ => panic!("expected a failure"),
    }

    let (mut st, _) = AddressListing::start(&mut form).unwrap();
    st.step(ListEvent::Found(3));
    st.step(ListEvent::Selected(Ok((vec![MATRow::Address { user: 3, alias: 10, domain: 20 }], 1))));
    match st.step(ListEvent::Selected(Ok((vec![], 0)))) {
        ListAction::Reply(Err(s)) => assert_eq!(s.code, 500),
        _ => panic!("expected a failure"),
    }

    let (mut st, _) = AddressListing::start(&mut form).unwrap();
    st.step(ListEvent::Found(3));
    match st.step(ListEvent::Selected(Ok((vec![alias_row(1, "x")], 1)))) {
        ListAction::Reply(Err(s)) => assert_eq!(s.code, 500),
        _ => panic!("expected a failure"),
    }
}
