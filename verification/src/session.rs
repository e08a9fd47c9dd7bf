//! The live-viewer session state machine. A session is driven by transport
//! events (handshake results, subscription readiness, send results) and
//! answers with the action the connection task must perform. The transport
//! work itself — the handshake, the waiting, the sends — happens outside;
//! the decisions are all here.

use vstd::prelude::*;

verus! {

#[derive(Clone, Copy, PartialEq, Eq, Structural, Debug)]
pub enum SessionState {
    /// Transport handshake in progress; no resources held yet.
    Connecting,
    /// Handshake succeeded; the session has entered the connection
    /// registry and obtained a hub subscription.
    Established,
    /// Waiting for the next published report and sending it onward.
    Streaming,
    /// Terminal; no registry entry and no subscription outlive this state.
    Closed,
}

#[derive(Clone, Copy, PartialEq, Eq, Structural, Debug)]
pub enum SessionEvent {
    HandshakeSucceeded,
    HandshakeFailed,
    /// The hub subscription is in place; streaming may begin.
    SubscriptionReady,
    /// The subscription yielded a report to forward.
    ReportReady,
    SendSucceeded,
    SendFailed,
    /// The remote viewer closed the connection or the server shuts the
    /// session down.
    TransportClosed,
}

#[derive(Clone, Copy, PartialEq, Eq, Structural, Debug)]
pub enum SessionAction {
    /// Enter the connection registry and subscribe to the hub.
    RegisterPeer,
    /// Serialize the pending report and send it to the viewer.
    SendReport,
    /// Remove the registry entry and drop the subscription.
    Cleanup,
    Idle,
}

/// One live-viewer session: its state and whether it currently holds a
/// connection-registry entry (and with it a hub subscription).
#[derive(Clone, Copy, PartialEq, Eq, Structural, Debug)]
pub struct Session {
    pub state: SessionState,
    pub registered: bool,
}

impl Session {
    /// Resources are held exactly between a successful handshake and the
    /// session's close.
    pub open spec fn wf(self) -> bool {
        self.registered <==> (self.state == SessionState::Established || self.state
            == SessionState::Streaming)
    }
}

/// The transition relation of the session: from a state and an event to the
/// next state and the action the connection task must perform.
///
/// A failed handshake closes the session without ever creating a registry
/// entry; a send failure or a transport close unwinds a streaming session
/// to `Closed`, whose action releases every resource; `Closed` is terminal.
/// Events that cannot occur in a state leave it unchanged.
pub open spec fn session_step(s: Session, e: SessionEvent) -> (Session, SessionAction) {
    match (s.state, e) {
        (SessionState::Connecting, SessionEvent::HandshakeSucceeded) => (
            Session { state: SessionState::Established, registered: true },
            SessionAction::RegisterPeer,
        ),
        (SessionState::Connecting, SessionEvent::HandshakeFailed) => (
            Session { state: SessionState::Closed, registered: false },
            SessionAction::Idle,
        ),
        (SessionState::Connecting, SessionEvent::TransportClosed) => (
            Session { state: SessionState::Closed, registered: false },
            SessionAction::Idle,
        ),
        (SessionState::Established, SessionEvent::SubscriptionReady) => (
            Session { state: SessionState::Streaming, registered: s.registered },
            SessionAction::Idle,
        ),
        (SessionState::Established, SessionEvent::SendFailed) => (
            Session { state: SessionState::Closed, registered: false },
            SessionAction::Cleanup,
        ),
        (SessionState::Established, SessionEvent::TransportClosed) => (
            Session { state: SessionState::Closed, registered: false },
            SessionAction::Cleanup,
        ),
        (SessionState::Streaming, SessionEvent::ReportReady) => (
            Session { state: SessionState::Streaming, registered: s.registered },
            SessionAction::SendReport,
        ),
        (SessionState::Streaming, SessionEvent::SendSucceeded) => (
            Session { state: SessionState::Streaming, registered: s.registered },
            SessionAction::Idle,
        ),
        (SessionState::Streaming, SessionEvent::SendFailed) => (
            Session { state: SessionState::Closed, registered: false },
            SessionAction::Cleanup,
        ),
        (SessionState::Streaming, SessionEvent::TransportClosed) => (
            Session { state: SessionState::Closed, registered: false },
            SessionAction::Cleanup,
        ),
        _ => (s, SessionAction::Idle),
    }
}

impl Session {
    /// A fresh session, mid-handshake, holding nothing.
    pub fn new() -> (s: Session)
        ensures
            s.state == SessionState::Connecting,
            !s.registered,
            s.wf(),
    {
        Session { state: SessionState::Connecting, registered: false }
    }

    /// Applies one event. Besides following `session_step` exactly, this
    /// maintains the resource invariant; a closed session stays closed and
    /// holds nothing; and whenever the step releases the registry entry it
    /// says so through the `Cleanup` action, so no resource outlives
    /// `Closed`.
    pub fn step(&mut self, e: SessionEvent) -> (a: SessionAction)
        requires
            old(self).wf(),
        ensures
            final(self).wf(),
            (*final(self), a) == session_step(*old(self), e),
            old(self).state == SessionState::Closed ==> final(self).state == SessionState::Closed
                && a == SessionAction::Idle,
            final(self).state == SessionState::Closed ==> !final(self).registered,
            old(self).registered && !final(self).registered ==> a == SessionAction::Cleanup
                || old(self).state == SessionState::Closed,
    {
        let (next, action): (Session, SessionAction) = match (self.state, e) {
            (SessionState::Connecting, SessionEvent::HandshakeSucceeded) => (
                Session { state: SessionState::Established, registered: true },
                SessionAction::RegisterPeer,
            ),
            (SessionState::Connecting, SessionEvent::HandshakeFailed) => (
                Session { state: SessionState::Closed, registered: false },
                SessionAction::Idle,
            ),
            (SessionState::Connecting, SessionEvent::TransportClosed) => (
                Session { state: SessionState::Closed, registered: false },
                SessionAction::Idle,
            ),
            (SessionState::Established, SessionEvent::SubscriptionReady) => (
                Session { state: SessionState::Streaming, registered: self.registered },
                SessionAction::Idle,
            ),
            (SessionState::Established, SessionEvent::SendFailed) => (
                Session { state: SessionState::Closed, registered: false },
                SessionAction::Cleanup,
            ),
            (SessionState::Established, SessionEvent::TransportClosed) => (
                Session { state: SessionState::Closed, registered: false },
                SessionAction::Cleanup,
            ),
            (SessionState::Streaming, SessionEvent::ReportReady) => (
                Session { state: SessionState::Streaming, registered: self.registered },
                SessionAction::SendReport,
            ),
            (SessionState::Streaming, SessionEvent::SendSucceeded) => (
                Session { state: SessionState::Streaming, registered: self.registered },
                SessionAction::Idle,
            ),
            (SessionState::Streaming, SessionEvent::SendFailed) => (
                Session { state: SessionState::Closed, registered: false },
                SessionAction::Cleanup,
            ),
            (SessionState::Streaming, SessionEvent::TransportClosed) => (
                Session { state: SessionState::Closed, registered: false },
                SessionAction::Cleanup,
            ),
            _ => (*self, SessionAction::Idle),
        };
        *self = next;
        action
    }
}

/// Law: `Closed` is terminal and resource-free — no event leads out of it,
/// it never performs an action, and a session in it holds no registry
/// entry. Stated over the transition relation itself.
pub proof fn lemma_closed_is_terminal(s: Session, e: SessionEvent)
    requires
        s.wf(),
        s.state == SessionState::Closed,
    ensures
        session_step(s, e).0 == s,
        session_step(s, e).1 == SessionAction::Idle,
        !session_step(s, e).0.registered,
{
}

} // verus!
