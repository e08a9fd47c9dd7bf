use tracectrl::api::Store;
use tracectrl::error::Error;
use tracectrl::hub::Hub;
use tracectrl::types::ClientId;
use tracectrl::types::IpNet;
use tracectrl::types::Layer;
use tracectrl::types::LogBody;
use tracectrl::types::Snippet;
use tracectrl::types::Trace;
use tracectrl::types::Uuid;

fn division_by_zero_body() -> LogBody {
    LogBody {
        message: String::from("division by zero"),
        message_type: String::from("&str"),
        language: String::from("example"),
        backtrace: Trace {
            layers: vec![Layer {
                line_number: 10,
                column_number: 3,
                code: String::from("x / 0"),
                name: String::from("main"),
                file_path: None,
            }],
        },
        snippet: Snippet {
            line: 10,
            code: String::from("x / 0"),
            file: None,
        },
        line_number: 10,
        file_name: String::from("src/main.rs"),
        warnings: vec![],
    }
}

fn origin() -> IpNet {
    IpNet::from_addr(0xffff_0a00_0001, false)
}

#[test]
fn register_then_ingest_then_list() {
    let mut store = Store::new(Hub::new(16));
    let client = store.db.register_client(None, 500);
    assert_eq!(client, 1);

    let id = Uuid { value: 0xabc };
    let r = store.add_log(client, origin(), division_by_zero_body(), id, 1000);
    let resp = r.expect("valid ingestion must succeed");
    assert_eq!(resp.datetime, 1000);
    assert_eq!(
        resp.message,
        "Log was created with ID 00000000-0000-0000-0000-000000000abc"
    );

    let logs = store.db.list_logs(Some(client));
    assert_eq!(logs.len(), 1);
    let log = &logs[0];
    assert_eq!(log.message, "division by zero");
    assert_eq!(log.message_type, "&str");
    assert_eq!(log.language, "example");
    assert_eq!(log.snippet.line, 10);
    assert_eq!(log.snippet.code, "x / 0");
    assert_eq!(log.file_name, "src/main.rs");
    assert_eq!(log.line_number, 10);
    assert!(log.warnings.is_empty());
    assert_eq!(log.date, 1000);
    assert_eq!(log.received_from, Some(origin()));
    assert_eq!(log.client_id, Some(client));
    assert_eq!(log.backtrace.layers.len(), 1);
    assert_eq!(log.backtrace.layers[0].name, "main");
}

#[test]
fn get_returns_round_tripped_backtrace_order() {
    let mut store = Store::new(Hub::new(16));
    let client = store.db.register_client(None, 1);
    let mut body = division_by_zero_body();
    body.backtrace.layers = vec![
        Layer {
            line_number: 1,
            column_number: 1,
            code: String::from("first()"),
            name: String::from("outer"),
            file_path: Some(String::from("a.rs")),
        },
        Layer {
            line_number: 2,
            column_number: 2,
            code: String::from("second()"),
            name: String::from("middle"),
            file_path: Some(String::from("b.rs")),
        },
        Layer {
            line_number: 3,
            column_number: 3,
            code: String::from("third()"),
            name: String::from("inner"),
            file_path: None,
        },
    ];
    let id = Uuid { value: 7 };
    store
        .add_log(client, origin(), body, id, 42)
        .expect("valid ingestion must succeed");

    let log = store
        .db
        .get_log(id, ClientId(client))
        .expect("stored log must be found");
    let names: Vec<&str> = log
        .backtrace
        .layers
        .iter()
        .map(|l| l.name.as_str())
        .collect();
    assert_eq!(names, vec!["outer", "middle", "inner"]);
    assert_eq!(log.backtrace.layers[0].file_path.as_deref(), Some("a.rs"));
    assert_eq!(log.backtrace.layers[2].file_path, None);
}

#[test]
fn get_unknown_id_is_not_found() {
    let mut store = Store::new(Hub::new(16));
    let client = store.db.register_client(None, 1);
    store
        .add_log(client, origin(), division_by_zero_body(), Uuid { value: 1 }, 5)
        .expect("valid ingestion must succeed");
    let miss = store.db.get_log(Uuid { value: 0xdead_beef }, ClientId(client));
    assert_eq!(miss.err(), Some(Error::NotFound));
}

#[test]
fn cross_client_lookups_leak_nothing() {
    let mut store = Store::new(Hub::new(16));
    let owner = store.db.register_client(None, 1);
    let other = store.db.register_client(None, 2);
    let id = Uuid { value: 77 };
    store
        .add_log(owner, origin(), division_by_zero_body(), id, 9)
        .expect("valid ingestion must succeed");

    assert_eq!(store.db.list_logs(Some(other)).len(), 0);
    assert_eq!(
        store.db.get_log(id, ClientId(other)).err(),
        Some(Error::NotFound)
    );
    assert_eq!(store.db.list_logs(Some(owner)).len(), 1);
    assert_eq!(store.db.list_logs(None).len(), 1);
}

#[test]
fn unknown_client_is_rejected_without_side_effects() {
    let mut store = Store::new(Hub::new(16));
    let r = store.add_log(5, origin(), division_by_zero_body(), Uuid { value: 1 }, 5);
    assert_eq!(r.err(), Some(Error::UnknownClient));
    assert_eq!(store.db.list_logs(None).len(), 0);
    assert_eq!(store.db.logs.len(), 0);
}

#[test]
fn duplicate_id_aborts_with_storage_error() {
    let mut store = Store::new(Hub::new(16));
    let client = store.db.register_client(None, 1);
    let id = Uuid { value: 3 };
    store
        .add_log(client, origin(), division_by_zero_body(), id, 5)
        .expect("valid ingestion must succeed");
    let second = store.add_log(client, origin(), division_by_zero_body(), id, 6);
    assert_eq!(second.err(), Some(Error::DuplicateLogId));
    assert_eq!(store.db.logs.len(), 1);
}

#[test]
fn identical_snippets_share_one_row() {
    let mut store = Store::new(Hub::new(16));
    let client = store.db.register_client(None, 1);
    store
        .add_log(client, origin(), division_by_zero_body(), Uuid { value: 1 }, 5)
        .expect("valid ingestion must succeed");
    store
        .add_log(client, origin(), division_by_zero_body(), Uuid { value: 2 }, 6)
        .expect("valid ingestion must succeed");
    assert_eq!(store.db.snippets.len(), 1);

    let mut different = division_by_zero_body();
    different.snippet.line = 11;
    store
        .add_log(client, origin(), different, Uuid { value: 3 }, 7)
        .expect("valid ingestion must succeed");
    assert_eq!(store.db.snippets.len(), 2);
    assert_eq!(store.db.logs.len(), 3);
}

#[test]
fn ingestion_updates_client_counters() {
    let mut store = Store::new(Hub::new(16));
    let client = store.db.register_client(None, 1);
    store
        .add_log(client, origin(), division_by_zero_body(), Uuid { value: 1 }, 50)
        .expect("valid ingestion must succeed");
    store
        .add_log(client, origin(), division_by_zero_body(), Uuid { value: 2 }, 60)
        .expect("valid ingestion must succeed");
    assert_eq!(store.db.clients[0].logs_sent, 2);
    assert_eq!(store.db.clients[0].last_connected, 60);
}
