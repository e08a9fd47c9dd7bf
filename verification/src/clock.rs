//! The server clock. The one trusted call reads the wall clock; everything
//! that depends on a time value takes it as an argument and is verified for
//! every value the clock can return.

use vstd::prelude::*;

use crate::valid_timestamp;

verus! {

/// Relies on chrono::Utc::now and chrono::DateTime::timestamp_millis: the
/// current UTC time in non-leap-milliseconds since the Unix epoch.
/// `Utc::now` does not return times before the epoch, and chrono's maximum
/// representable date keeps the millisecond count far below
/// `TIMESTAMP_BOUND`; nothing beyond that range is assumed, and no two
/// calls are related.
#[verifier::external_body]
pub fn now_utc_millis() -> (t: i64)
    ensures
        valid_timestamp(t),
{
    chrono::Utc::now().timestamp_millis()
}

} // verus!
