//! The wall clock and the stopwatch. What they read is carried into the
//! report; no decision of the crawl depends on it.

use std::time::{Duration, Instant};
use vstd::prelude::*;

verus! {

/// A point in time, to the nanosecond: whole seconds since the start of 1970
/// (UTC), leap seconds not counted, and the nanoseconds past the last whole
/// second, which reach a billion and more only within a leap second.
#[derive(Debug, Clone, Copy, PartialEq, Eq, Structural)]
pub struct Timestamp {
    pub seconds: i64,
    pub nanos: u32,
}

/// `std::time::Instant`, the reading a stopwatch starts from. It is carried
/// as it is.
#[verifier::external_type_specification]
#[verifier::external_body]
pub struct ExInstant(Instant);

/// Reads the wall clock with `chrono::Utc::now` and takes the reading apart
/// with `DateTime::timestamp` and `DateTime::timestamp_subsec_nanos`. Nothing
/// is claimed of the reading. `Utc::now` gives up on a machine whose clock
/// stands before 1970.
#[verifier::external_body]
pub(crate) fn wall_clock() -> (date: Timestamp) {
    let reading = chrono::Utc::now();
    Timestamp { seconds: reading.timestamp(), nanos: reading.timestamp_subsec_nanos() }
}

/// `Instant::now` starts a stopwatch. Nothing is claimed of the reading.
pub assume_specification[ std::time::Instant::now ]() -> (began: Instant);

/// `Instant::elapsed` reads a stopwatch. Nothing is claimed of the reading.
pub assume_specification[ std::time::Instant::elapsed ](began: &Instant) -> (span: Duration);

/// The span of time that lasts `secs` whole seconds.
pub uninterp spec fn whole_seconds(secs: u64) -> Duration;

/// `Duration::from_secs` makes the span of that many whole seconds. A span
/// cannot be looked into here, so the contract only gives it its name.
pub assume_specification[ std::time::Duration::from_secs ](secs: u64) -> (span: Duration)
    ensures
        span == whole_seconds(secs),
;

} // verus!
