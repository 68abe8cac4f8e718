//! The wall clock.

use vstd::prelude::*;
use std::time::{Duration, SystemTime, SystemTimeError, UNIX_EPOCH};

verus! {

/// `std::time::SystemTime`, a reading of the system clock. Nothing of what a
/// reading holds is visible to the proofs.
#[verifier::external_type_specification]
#[verifier::external_body]
pub struct ExSystemTime(std::time::SystemTime);

/// `std::time::SystemTimeError`, the error of a reading that lies before the
/// moment it is measured from.
#[verifier::external_type_specification]
#[verifier::external_body]
pub struct ExSystemTimeError(std::time::SystemTimeError);

/// Calls `SystemTime::now`, which reads the system clock. Nothing is claimed
/// of the reading.
#[verifier::external_body]
fn system_time_now() -> SystemTime {
    SystemTime::now()
}

/// Calls `SystemTime::duration_since` with `UNIX_EPOCH`, which gives the
/// time that passed from the epoch to the reading, or an error for a reading
/// before the epoch. Nothing is claimed of which of the two comes back.
#[verifier::external_body]
fn duration_since_unix_epoch(reading: &SystemTime) -> Result<Duration, SystemTimeError> {
    reading.duration_since(UNIX_EPOCH)
}

/// Calls `Duration::as_millis`, the whole milliseconds in a duration.
/// Nothing is claimed of the number: it stems from a clock reading.
#[verifier::external_body]
fn duration_as_millis(duration: &Duration) -> u128 {
    duration.as_millis()
}

/// Reads the wall clock as milliseconds since the Unix epoch. A clock set
/// before the epoch has no such reading.
pub(crate) fn current_time_millis() -> Option<u128> {
    let reading = system_time_now();
    match duration_since_unix_epoch(&reading) {
        Ok(elapsed) => Some(duration_as_millis(&elapsed)),
        Err(_) => None,
    }
}

} // verus!
