//! The time source: the system clock read as seconds since the Unix epoch.
use crate::error::Error;
use std::time::{Duration, SystemTime, SystemTimeError};
use vstd::prelude::*;

verus! {

/// `std::time::SystemTime`, a reading of the system clock, carried through
/// as it is.
#[verifier::external_type_specification]
#[verifier::external_body]
pub struct ExSystemTime(SystemTime);

/// `std::time::SystemTimeError`, the failure of a clock that stands before
/// the time it is compared with.
#[verifier::external_type_specification]
#[verifier::external_body]
pub struct ExSystemTimeError(SystemTimeError);

/// `SystemTime::now` reads the system clock; nothing is claimed of the
/// reading.
pub assume_specification[ SystemTime::now ]() -> SystemTime;

/// `SystemTime::duration_since`, asked for the time elapsed since
/// `SystemTime::UNIX_EPOCH`: the duration, or an error where the clock stands
/// before the epoch. Nothing is claimed of either.
#[verifier::external_body]
fn since_unix_epoch(time: &SystemTime) -> Result<Duration, SystemTimeError> {
    time.duration_since(SystemTime::UNIX_EPOCH)
}

/// `Duration::as_secs` gives the whole seconds of a duration; nothing is
/// claimed of their number.
pub assume_specification[ Duration::as_secs ](duration: &Duration) -> u64;

/// The 32-bit timestamp that stands for `secs` seconds since the epoch: the
/// low 32 bits of the count.
pub open spec fn timestamp_of(secs: u64) -> u32 {
    (secs % 0x1_0000_0000) as u32
}

/// Narrows a count of seconds since the epoch to a 32-bit timestamp.
pub fn timestamp_from_secs(secs: u64) -> (timestamp: u32)
    ensures
        timestamp == timestamp_of(secs),
{
    (secs % 0x1_0000_0000) as u32
}

/// What a reading of the clock becomes: the timestamp of the seconds elapsed
/// since the epoch, or `ClockError` where the clock stands before the epoch
/// (`None`).
pub open spec fn timestamp_of_reading(since_epoch: Option<u64>) -> Result<u32, Error> {
    match since_epoch {
        Some(secs) => Ok(timestamp_of(secs)),
        None => Err(Error::ClockError),
    }
}

/// Turns a reading of the clock into a timestamp.
pub fn timestamp_from_reading(since_epoch: Option<u64>) -> (timestamp: Result<u32, Error>)
    ensures
        timestamp == timestamp_of_reading(since_epoch),
{
    match since_epoch {
        Some(secs) => Ok(timestamp_from_secs(secs)),
        None => Err(Error::ClockError),
    }
}

/// A helper function to return a unix time stamp in seconds as a u32.
///
/// The clock decides the value; the only failure is a clock that stands
/// before the epoch.
pub fn unix_u32_now() -> (timestamp: Result<u32, Error>)
    ensures
        timestamp matches Err(error) ==> error == Error::ClockError,
{
    let since_epoch = match since_unix_epoch(&SystemTime::now()) {
        Ok(elapsed) => Some(elapsed.as_secs()),
        Err(_) => None,
    };
    timestamp_from_reading(since_epoch)
}

} // verus!
