use tracectrl::hub::Hub;
use tracectrl::hub::LOG_SOCKET_CAPACITY;
use tracectrl::hub::RecvOutcome;
use tracectrl::hub::new_log_socket;
use tracectrl::types::Log;
use tracectrl::types::Snippet;
use tracectrl::types::Trace;
use tracectrl::types::Uuid;

fn numbered_log(n: u64) -> Log {
    Log {
        id: Uuid { value: n as u128 },
        message: format!("report {n}"),
        message_type: String::from("&str"),
        language: String::from("example"),
        snippet: Snippet {
            line: 1,
            code: String::from("x / 0"),
            file: None,
        },
        file_name: String::from("src/main.rs"),
        line_number: 1,
        backtrace: Trace { layers: vec![] },
        warnings: vec![],
        date: n as i64,
        received_from: None,
        client_id: Some(1),
    }
}

fn expect_received(outcome: RecvOutcome) -> Log {
    match outcome {
        RecvOutcome::Received(log) => log,
        RecvOutcome::Lagged(n) => panic!("expected a report, got a gap of {n}"),
        RecvOutcome::Pending => panic!("expected a report, got nothing"),
    }
}

#[test]
fn paced_subscriber_receives_all_in_order() {
    let mut hub = Hub::new(4);
    let mut sub = hub.subscribe();
    for n in 0..10u64 {
        hub.publish(numbered_log(n));
        let log = expect_received(sub.recv(&hub));
        assert_eq!(log.id.value, n as u128);
        assert_eq!(log.message, format!("report {n}"));
    }
    assert!(matches!(sub.recv(&hub), RecvOutcome::Pending));
}

#[test]
fn lagged_subscriber_sees_one_gap_then_newest_in_order() {
    let mut hub = Hub::new(4);
    let mut sub = hub.subscribe();
    for n in 0..10u64 {
        hub.publish(numbered_log(n));
    }
    match sub.recv(&hub) {
        RecvOutcome::Lagged(missed) => assert_eq!(missed, 6),
        _ => panic!("a subscriber behind the window must observe a gap"),
    }
    for n in 6..10u64 {
        let log = expect_received(sub.recv(&hub));
        assert_eq!(log.id.value, n as u128);
    }
    assert!(matches!(sub.recv(&hub), RecvOutcome::Pending));
}

#[test]
fn publishing_without_subscribers_succeeds() {
    let mut hub = Hub::new(4);
    for n in 0..100u64 {
        hub.publish(numbered_log(n));
    }
    let mut late = hub.subscribe();
    assert!(matches!(late.recv(&hub), RecvOutcome::Pending));
    hub.publish(numbered_log(100));
    let log = expect_received(late.recv(&hub));
    assert_eq!(log.id.value, 100);
}

#[test]
fn two_subscribers_each_receive_exactly_once() {
    let mut hub = Hub::new(8);
    let mut first = hub.subscribe();
    let mut second = hub.subscribe();
    hub.publish(numbered_log(9));

    let a = expect_received(first.recv(&hub));
    let b = expect_received(second.recv(&hub));
    assert_eq!(a.id.value, 9);
    assert_eq!(b.id.value, 9);
    assert_eq!(a.message, b.message);

    assert!(matches!(first.recv(&hub), RecvOutcome::Pending));
    assert!(matches!(second.recv(&hub), RecvOutcome::Pending));
}

#[test]
fn log_socket_uses_default_capacity() {
    assert_eq!(LOG_SOCKET_CAPACITY, 16);
    let (mut hub, mut sub) = new_log_socket();
    for n in 0..20u64 {
        hub.publish(numbered_log(n));
    }
    match sub.recv(&hub) {
        RecvOutcome::Lagged(missed) => assert_eq!(missed, 4),
        _ => panic!("twenty reports must overflow a window of sixteen"),
    }
    let log = expect_received(sub.recv(&hub));
    assert_eq!(log.id.value, 4);
}
