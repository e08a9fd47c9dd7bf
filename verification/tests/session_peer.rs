use tracectrl::peer_map::PeerMap;
use tracectrl::session::Session;
use tracectrl::session::SessionAction;
use tracectrl::session::SessionEvent;
use tracectrl::session::SessionState;

#[test]
fn session_streams_and_closes_on_send_failure() {
    let mut s = Session::new();
    assert_eq!(s.state, SessionState::Connecting);
    assert!(!s.registered);

    let a = s.step(SessionEvent::HandshakeSucceeded);
    assert_eq!(a, SessionAction::RegisterPeer);
    assert_eq!(s.state, SessionState::Established);
    assert!(s.registered);

    let a = s.step(SessionEvent::SubscriptionReady);
    assert_eq!(a, SessionAction::Idle);
    assert_eq!(s.state, SessionState::Streaming);

    let a = s.step(SessionEvent::ReportReady);
    assert_eq!(a, SessionAction::SendReport);
    let a = s.step(SessionEvent::SendSucceeded);
    assert_eq!(a, SessionAction::Idle);
    assert_eq!(s.state, SessionState::Streaming);

    let a = s.step(SessionEvent::SendFailed);
    assert_eq!(a, SessionAction::Cleanup);
    assert_eq!(s.state, SessionState::Closed);
    assert!(!s.registered);
}

#[test]
fn failed_handshake_closes_without_registry_entry() {
    let mut s = Session::new();
    let a = s.step(SessionEvent::HandshakeFailed);
    assert_eq!(a, SessionAction::Idle);
    assert_eq!(s.state, SessionState::Closed);
    assert!(!s.registered);
}

#[test]
fn transport_close_unwinds_a_streaming_session() {
    let mut s = Session::new();
    s.step(SessionEvent::HandshakeSucceeded);
    s.step(SessionEvent::SubscriptionReady);
    let a = s.step(SessionEvent::TransportClosed);
    assert_eq!(a, SessionAction::Cleanup);
    assert_eq!(s.state, SessionState::Closed);
    assert!(!s.registered);
}

#[test]
fn closed_is_terminal() {
    let mut s = Session::new();
    s.step(SessionEvent::HandshakeFailed);
    for e in [
        SessionEvent::HandshakeSucceeded,
        SessionEvent::SubscriptionReady,
        SessionEvent::ReportReady,
        SessionEvent::SendSucceeded,
        SessionEvent::SendFailed,
        SessionEvent::TransportClosed,
    ] {
        let a = s.step(e);
        assert_eq!(a, SessionAction::Idle);
        assert_eq!(s.state, SessionState::Closed);
        assert!(!s.registered);
    }
}

#[test]
fn peer_map_registers_and_unregisters_connections() {
    let mut peers = PeerMap::new();
    let addr = 0xffff_c0a8_0001u128;

    assert!(!peers.contains(addr, 4000));
    assert_eq!(peers.register(addr, 4000, 11), None);
    assert!(peers.contains(addr, 4000));
    assert!(!peers.contains(addr, 4001));

    assert_eq!(peers.register(addr, 4001, 12), None);
    assert_eq!(peers.register(addr, 4000, 13), Some(11));

    assert_eq!(peers.unregister(addr, 4000), Some(13));
    assert!(!peers.contains(addr, 4000));
    assert!(peers.contains(addr, 4001));
    assert_eq!(peers.unregister(addr, 4000), None);
}
