//! The wall clock, as the store reads it.

use vstd::prelude::*;

verus! {

/// Seconds since the Unix epoch, read from the system clock through
/// `chrono::Utc::now` and `DateTime::timestamp`.
///
/// Nothing is claimed of the value: two readings may differ in either
/// direction. `Utc::now` expects a system clock that is not set before the
/// epoch.
#[verifier::external_body]
pub(crate) fn unix_seconds() -> (now: i64) {
    chrono::Utc::now().timestamp()
}

/// Milliseconds since the Unix epoch, read from the system clock through
/// `chrono::Utc::now` and `DateTime::timestamp_millis`.
///
/// Nothing is claimed of the value. `Utc::now` expects a system clock that
/// is not set before the epoch.
#[verifier::external_body]
pub(crate) fn unix_millis() -> (now: i64) {
    chrono::Utc::now().timestamp_millis()
}

} // verus!
