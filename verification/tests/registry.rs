use tracectrl::api::authenticate_client;
use tracectrl::api::parse_client_id;
use tracectrl::error::Error;
use tracectrl::store::Db;
use tracectrl::types::ClientId;

#[test]
fn new_client_allocates_sequential_ids() {
    let mut db = Db::new();
    let first = db.register_client(None, 100);
    let second = db.register_client(None, 101);
    assert_eq!(first, 1);
    assert_eq!(second, 2);
    assert!(db.validate(1));
    assert!(db.validate(2));
    assert!(!db.validate(3));
    assert_eq!(db.clients.len(), 2);
}

#[test]
fn reregistration_never_duplicates_and_refreshes() {
    let mut db = Db::new();
    let id = db.register_client(None, 100);
    assert_eq!(db.clients.len(), 1);
    let again = db.register_client(Some(id), 250);
    assert_eq!(again, id);
    assert_eq!(db.clients.len(), 1);
    assert_eq!(db.clients[0].last_connected, 250);
    let once_more = db.register_client(Some(id), 300);
    assert_eq!(once_more, id);
    assert_eq!(db.clients.len(), 1);
    assert!(db.clients[0].last_connected > 250);
}

#[test]
fn unknown_requested_id_allocates_fresh() {
    let mut db = Db::new();
    let id = db.register_client(Some(99), 50);
    assert_eq!(id, 1);
    assert!(db.validate(1));
    assert!(!db.validate(99));
}

#[test]
fn parse_accepts_plain_and_signed_integers() {
    assert_eq!(parse_client_id(b"42"), Ok(42));
    assert_eq!(parse_client_id(b"0"), Ok(0));
    assert_eq!(parse_client_id(b"+7"), Ok(7));
    assert_eq!(parse_client_id(b"-17"), Ok(-17));
    assert_eq!(parse_client_id(b"2147483647"), Ok(2147483647));
    assert_eq!(parse_client_id(b"-2147483648"), Ok(-2147483648));
}

#[test]
fn parse_rejects_malformed_input() {
    assert_eq!(parse_client_id(b""), Err(Error::InvalidClientId));
    assert_eq!(parse_client_id(b"+"), Err(Error::InvalidClientId));
    assert_eq!(parse_client_id(b"-"), Err(Error::InvalidClientId));
    assert_eq!(parse_client_id(b"12a"), Err(Error::InvalidClientId));
    assert_eq!(parse_client_id(b"a12"), Err(Error::InvalidClientId));
    assert_eq!(parse_client_id(b" 1"), Err(Error::InvalidClientId));
    assert_eq!(parse_client_id(b"1 "), Err(Error::InvalidClientId));
}

#[test]
fn parse_rejects_out_of_range_values() {
    assert_eq!(parse_client_id(b"2147483648"), Err(Error::InvalidClientId));
    assert_eq!(parse_client_id(b"-2147483649"), Err(Error::InvalidClientId));
    assert_eq!(
        parse_client_id(b"999999999999999999999999"),
        Err(Error::InvalidClientId)
    );
}

#[test]
fn error_statuses_separate_rejected_from_failed() {
    assert_eq!(Error::InvalidClientId.status(), 400);
    assert_eq!(Error::UnknownClient.status(), 400);
    assert_eq!(Error::NotFound.status(), 404);
    assert_eq!(Error::DuplicateLogId.status(), 500);
}

#[test]
fn authentication_separates_malformed_unknown_and_known() {
    let mut db = Db::new();
    let id = db.register_client(None, 10);

    assert_eq!(authenticate_client(&db, None), Err(Error::InvalidClientId));
    assert_eq!(
        authenticate_client(&db, Some(b"not a number")),
        Err(Error::InvalidClientId)
    );
    assert_eq!(
        authenticate_client(&db, Some(b"999")),
        Err(Error::UnknownClient)
    );
    assert_eq!(authenticate_client(&db, Some(b"1")), Ok(ClientId(id)));
}
