//! A verified core for a log-collection and live-broadcast server.
//!
//! Instrumented client programs register an identifier, submit structured
//! error reports (message, fault-site snippet, backtrace, warnings), and the
//! server stores each accepted report and republishes it to live viewers.
//! This crate holds the verified logic of that pipeline: the data model, the
//! client registry, report normalization, the persistence rules (with
//! snippet de-duplication and ordered backtrace storage), the broadcast hub
//! with its bounded lag buffer, the connection registry, and the live-viewer
//! session state machine.

use vstd::prelude::*;

pub mod api;
pub mod clock;
pub mod error;
pub mod hub;
pub mod ids;
pub mod peer_map;
pub mod session;
pub mod store;
pub mod types;

verus! {

/// Upper bound placed on timestamps handled by the registry, far beyond any
/// realistic wall-clock reading in milliseconds.
pub const TIMESTAMP_BOUND: i64 = 0x4000_0000_0000_0000;

/// True for wall-clock readings the registry accepts.
pub open spec fn valid_timestamp(t: i64) -> bool {
    0 <= t < TIMESTAMP_BOUND
}

} // verus!
