use tracectrl::api::Store;
use tracectrl::api::normalize;
use tracectrl::api::register_response;
use tracectrl::clock::now_utc_millis;
use tracectrl::hub::Hub;
use tracectrl::store::Db;
use tracectrl::types::IpNet;
use tracectrl::types::Layer;
use tracectrl::types::LogBody;
use tracectrl::types::Snippet;
use tracectrl::types::Trace;
use tracectrl::types::Uuid;

#[test]
fn uuid_renders_in_canonical_hyphenated_form() {
    let zero = Uuid { value: 0 };
    assert_eq!(zero.to_hyphenated(), "00000000-0000-0000-0000-000000000000");

    let mixed = Uuid {
        value: 0x1234_5678_9abc_def0_1234_5678_9abc_def0,
    };
    assert_eq!(mixed.to_hyphenated(), "12345678-9abc-def0-1234-56789abcdef0");
}

#[test]
fn created_message_carries_the_id() {
    let id = Uuid { value: 0xfeed };
    assert_eq!(
        id.created_message(),
        "Log was created with ID 00000000-0000-0000-0000-00000000feed"
    );
}

#[test]
fn clock_returns_a_plausible_timestamp() {
    let t = now_utc_millis();
    assert!(t > 0);
    let u = now_utc_millis();
    assert!(u > 0);
}

#[test]
fn registration_with_server_clock() {
    let mut db = Db::new();
    let id = db.register_client_now(None);
    assert_eq!(id, 1);
    assert!(db.clients[0].last_connected > 0);
    let again = db.register_client_now(Some(id));
    assert_eq!(again, id);
    assert_eq!(db.clients.len(), 1);
    assert!(db.clients[0].last_connected > 0);
    assert_eq!(register_response(id).client_id, 1);
}

#[test]
fn ingestion_with_fresh_id_and_clock() {
    let mut store = Store::new(Hub::new(16));
    let client = store.db.register_client_now(None);
    let body = LogBody {
        message: String::from("oops"),
        message_type: String::from("&str"),
        language: String::from("example"),
        backtrace: Trace { layers: vec![] },
        snippet: Snippet {
            line: 1,
            code: String::from("oops()"),
            file: None,
        },
        line_number: 1,
        file_name: String::from("lib.rs"),
        warnings: vec![String::from("no debug symbols")],
    };
    let resp = store
        .add_log_now(client, IpNet::from_addr(1, false), body)
        .expect("a fresh random id does not collide");
    assert!(resp.message.starts_with("Log was created with ID "));
    assert_eq!(resp.message.len(), "Log was created with ID ".len() + 36);
    assert!(resp.datetime > 0);

    let logs = store.db.list_logs(Some(client));
    assert_eq!(logs.len(), 1);
    assert_eq!(logs[0].message, "oops");
    assert_eq!(logs[0].warnings, vec![String::from("no debug symbols")]);
}

#[test]
fn normalize_copies_verbatim_and_leaves_attribution_unset() {
    let body = LogBody {
        message: String::from("m"),
        message_type: String::from("t"),
        language: String::from("l"),
        backtrace: Trace {
            layers: vec![Layer {
                line_number: 4,
                column_number: 2,
                code: String::from("c"),
                name: String::from("n"),
                file_path: None,
            }],
        },
        snippet: Snippet {
            line: 4,
            code: String::from("c"),
            file: Some(String::from("f.rs")),
        },
        line_number: 4,
        file_name: String::from("f.rs"),
        warnings: vec![],
    };
    let log = normalize(body, Uuid { value: 5 }, 777);
    assert_eq!(log.id.value, 5);
    assert_eq!(log.date, 777);
    assert_eq!(log.message, "m");
    assert_eq!(log.backtrace.layers.len(), 1);
    assert_eq!(log.backtrace.layers[0].name, "n");
    assert_eq!(log.received_from, None);
    assert_eq!(log.client_id, None);
}

#[test]
fn single_host_networks_use_family_prefix() {
    let v4 = IpNet::from_addr(0xffff_0a00_0001, false);
    assert_eq!(v4.prefix, 32);
    let v6 = IpNet::from_addr(0x2001_0db8, true);
    assert_eq!(v6.prefix, 128);
}

#[test]
fn default_snippet_and_layer_match_documented_examples() {
    let s = Snippet::default();
    assert_eq!(s.line, 1);
    assert_eq!(s.code, "log(\"hello\");");
    assert_eq!(s.file, None);

    let l = Layer::default();
    assert_eq!(l.line_number, 1);
    assert_eq!(l.column_number, 5);
    assert_eq!(l.code, "log(\"hello\");");
    assert_eq!(l.name, "main.rs");
    assert_eq!(l.file_path.as_deref(), Some("src/main.rs"));
}
