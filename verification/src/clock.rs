//! The wall clock, in the milliseconds that the store records.
use vstd::prelude::*;

use std::time::{Duration, SystemTime, SystemTimeError};

verus! {

#[verifier::external_type_specification]
#[verifier::external_body]
pub struct ExSystemTime(SystemTime);

#[verifier::external_type_specification]
#[verifier::external_body]
pub struct ExSystemTimeError(SystemTimeError);

/// `SystemTime::now`: the current time. Nothing is stated of it: it is
/// whatever the system clock reads.
#[verifier::external_body]
fn current_time() -> SystemTime {
    SystemTime::now()
}

/// `SystemTime::duration_since` from the Unix epoch: an error when the
/// clock reads a time before 1970. Which of the two comes back depends on
/// the clock, so nothing is stated.
#[verifier::external_body]
fn since_unix_epoch(time: &SystemTime) -> Result<Duration, SystemTimeError> {
    time.duration_since(SystemTime::UNIX_EPOCH)
}

/// `Duration::as_millis`: the whole milliseconds of a duration. A
/// `Duration` is opaque here, so its length is not stated.
#[verifier::external_body]
fn whole_millis(duration: &Duration) -> u128 {
    duration.as_millis()
}

/// A timestamp from the milliseconds since the epoch, if the clock is past
/// the epoch: 0 for a clock before it, the count cast to `i64` otherwise.
pub open spec fn timestamp_of(millis: Option<u128>) -> i64 {
    match millis {
        Some(m) => m as i64,
        None => 0,
    }
}

pub fn timestamp_from_millis(millis: Option<u128>) -> (timestamp: i64)
    ensures
        timestamp == timestamp_of(millis),
        millis matches Some(m) ==> (m <= i64::MAX ==> timestamp == m),
{
    match millis {
        Some(m) => {
            #[verifier::truncate]
            let t: i64 = m as i64;
            t
        },
        None => 0,
    }
}

/// Milliseconds since the Unix epoch by the system clock; 0 when the clock
/// reads a time before the epoch.
pub fn unix_timestamp_millis() -> (timestamp: i64)
    ensures
        exists|millis: Option<u128>| timestamp == timestamp_of(millis),
{
    let now = current_time();
    let millis = match since_unix_epoch(&now) {
        Ok(duration) => Some(whole_millis(&duration)),
        Err(_) => None,
    };
    timestamp_from_millis(millis)
}

} // verus!
