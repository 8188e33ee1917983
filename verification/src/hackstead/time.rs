//! Points in time.

use vstd::prelude::*;

verus! {

/// A point in time in UTC: whole seconds since the Unix epoch and the
/// nanoseconds past them (as chrono's `DateTime<Utc>` splits it).
#[derive(Clone, Copy, Debug, PartialEq, Eq, Structural)]
pub struct Timestamp {
    pub secs: i64,
    pub nanos: u32,
}

/// The current time.
///
/// Calls `chrono::Utc::now` and splits the date-time into seconds and
/// nanoseconds. The result depends on the clock, so nothing is promised
/// about it; chrono panics if the clock reads earlier than the Unix epoch.
#[verifier::external_body]
pub fn now() -> (r: Timestamp) {
    let dt = chrono::Utc::now();
    Timestamp { secs: dt.timestamp(), nanos: dt.timestamp_subsec_nanos() }
}

} // verus!
