//! The clock: `std::time` values that the library carries but cannot look
//! into, and the calls that read them. Nothing is stated of what the clock
//! says; the functions that decide on elapsed time take it as a plain
//! number.
use vstd::prelude::*;

use std::time::{Duration, Instant, SystemTime};

verus! {

#[verifier::external_type_specification]
#[verifier::external_body]
pub struct ExInstant(std::time::Instant);

#[verifier::external_type_specification]
#[verifier::external_body]
pub struct ExSystemTime(std::time::SystemTime);

/// The current time of the monotonic clock (`Instant::now`). Nothing is
/// stated of it.
#[verifier::external_body]
pub(crate) fn instant_now() -> Instant {
    Instant::now()
}

/// The time from `earlier` to `now`, zero if `earlier` is later
/// (`Instant::duration_since`). Nothing is stated of it.
#[verifier::external_body]
pub(crate) fn duration_since(now: &Instant, earlier: &Instant) -> Duration {
    now.duration_since(*earlier)
}

/// Whole milliseconds in `d` (`Duration::as_millis`). Nothing is stated of
/// it: `Duration` is opaque here.
#[verifier::external_body]
pub(crate) fn as_millis(d: &Duration) -> u128 {
    d.as_millis()
}

/// Whole seconds in `d` (`Duration::as_secs`). Nothing is stated of it:
/// `Duration` is opaque here.
#[verifier::external_body]
pub(crate) fn as_secs(d: &Duration) -> u64 {
    d.as_secs()
}

/// Whole nanoseconds in `d` (`Duration::as_nanos`). Nothing is stated of
/// it: `Duration` is opaque here.
#[verifier::external_body]
pub(crate) fn as_nanos(d: &Duration) -> u128 {
    d.as_nanos()
}

/// The current wall-clock time (`SystemTime::now`). Nothing is stated of
/// it.
#[verifier::external_body]
pub(crate) fn system_now() -> SystemTime {
    SystemTime::now()
}

/// The time since `t` (`SystemTime::elapsed`), `None` when the clock is
/// now before `t`. Nothing is stated of it.
#[verifier::external_body]
pub(crate) fn system_elapsed(t: &SystemTime) -> Option<Duration> {
    t.elapsed().ok()
}

} // verus!
