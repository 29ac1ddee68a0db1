//! Readings of the system clock.
use std::time::{Duration, SystemTime};
use vstd::prelude::*;

verus! {

#[verifier::external_type_specification]
#[verifier::external_body]
pub struct ExSystemTime(std::time::SystemTime);

/// Relies on `SystemTime::now`: a reading of the wall clock. Nothing is known of
/// its value.
pub assume_specification[ std::time::SystemTime::now ]() -> std::time::SystemTime;

/// Relies on `Duration::as_secs`: the whole seconds of a duration.
pub assume_specification[ std::time::Duration::as_secs ](d: &std::time::Duration) -> u64;

/// Relies on `Duration::as_nanos`: the whole nanoseconds of a duration.
pub assume_specification[ std::time::Duration::as_nanos ](d: &std::time::Duration) -> u128;

/// Relies on `SystemTime::duration_since`: the time from the Unix epoch to `t`,
/// or `None` where `t` lies before the epoch.
#[verifier::external_body]
fn since_unix_epoch(t: &SystemTime) -> Option<Duration> {
    t.duration_since(std::time::UNIX_EPOCH).ok()
}

/// Whole seconds since the Unix epoch, read from the wall clock; `None` where
/// the clock reads before the epoch.
pub fn unix_seconds() -> Option<u64> {
    let now = SystemTime::now();
    match since_unix_epoch(&now) {
        Some(elapsed) => Some(elapsed.as_secs()),
        None => None,
    }
}

/// Nanoseconds since the Unix epoch, read from the wall clock; `None` where
/// the clock reads before the epoch.
pub fn unix_nanos() -> Option<u128> {
    let now = SystemTime::now();
    match since_unix_epoch(&now) {
        Some(elapsed) => Some(elapsed.as_nanos()),
        None => None,
    }
}

} // verus!
