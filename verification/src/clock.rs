use std::time::{Duration, SystemTime, SystemTimeError, UNIX_EPOCH};
use vstd::prelude::*;

verus! {

/// A reading of the system clock, carried through and never looked into.
#[verifier::external_type_specification]
#[verifier::external_body]
pub struct ExSystemTime(SystemTime);

/// The error of measuring from a later moment, carried through and never
/// looked into.
#[verifier::external_type_specification]
#[verifier::external_body]
pub struct ExSystemTimeError(SystemTimeError);

/// `SystemTime::now` reads the system clock. Nothing is claimed about the
/// reading.
pub assume_specification[ SystemTime::now ]() -> (now: SystemTime);

/// `Duration::as_secs` gives the whole seconds of a duration. Nothing is
/// claimed about their number.
pub assume_specification[ Duration::as_secs ](duration: &Duration) -> (seconds: u64);

/// Measures `moment` from the Unix epoch with `SystemTime::duration_since`;
/// an error when the moment lies before the epoch. Nothing is claimed
/// about the measure.
#[verifier::external_body]
fn since_epoch(moment: &SystemTime) -> (elapsed: Result<Duration, SystemTimeError>) {
    moment.duration_since(UNIX_EPOCH)
}

/// The current Unix timestamp in seconds: what [`timestamp_from`] makes
/// of the system clock's reading. Of the reading itself nothing is known,
/// so only what holds of every reading is promised: the timestamp is never
/// before the epoch.
pub fn current_timestamp() -> (now: i64)
    ensures
        now >= 0,
{
    let moment = SystemTime::now();
    let reading = match since_epoch(&moment) {
        Ok(elapsed) => Some(elapsed.as_secs()),
        Err(_) => None,
    };
    timestamp_from(reading)
}

/// The timestamp for a reading of the clock in whole seconds since the
/// epoch, where `None` is a clock that stands before the epoch.
pub open spec fn timestamp_of(reading: Option<u64>) -> i64 {
    match reading {
        Some(seconds) => if seconds <= i64::MAX {
            seconds as i64
        } else {
            i64::MAX
        },
        None => 0,
    }
}

/// Turns a reading of the clock into a timestamp. A clock that stands
/// before the epoch reads as the epoch itself, and a reading beyond the
/// range of `i64` as the largest timestamp.
pub fn timestamp_from(reading: Option<u64>) -> (timestamp: i64)
    ensures
        timestamp == timestamp_of(reading),
        timestamp >= 0,
{
    match reading {
        Some(seconds) => {
            if seconds <= 0x7FFF_FFFF_FFFF_FFFF {
                seconds as i64
            } else {
                i64::MAX
            }
        },
        None => 0,
    }
}

} // verus!
