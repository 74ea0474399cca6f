//! The time of the system clock in whole seconds since the Unix epoch.
//!
//! The clock is read through `std::time`, none of whose functions used here
//! can fail the program. A clock that stands before the epoch reads as zero,
//! and a time too large for the result as the largest value.

use std::time::SystemTime;
use vstd::prelude::*;

verus! {

/// A reading of the system clock, `std::time::SystemTime`. Nothing is known
/// of what it holds.
#[verifier::external_type_specification]
#[verifier::external_body]
pub struct ExSystemTime(SystemTime);

/// The system clock's time, from `SystemTime::now`. Nothing is claimed of it.
#[verifier::external_body]
fn system_now() -> (time: SystemTime) {
    SystemTime::now()
}

/// How far `time` lies after the Unix epoch, from `SystemTime::duration_since`;
/// `None` where it lies before. Nothing is claimed of the value.
#[verifier::external_body]
fn since_unix_epoch(time: &SystemTime) -> (elapsed: Option<core::time::Duration>) {
    time.duration_since(std::time::UNIX_EPOCH).ok()
}

/// The whole seconds of a duration, from `Duration::as_secs`. Nothing is
/// claimed of the value.
#[verifier::external_body]
fn whole_seconds(elapsed: &core::time::Duration) -> (seconds: u64) {
    elapsed.as_secs()
}

/// A count of seconds as a timestamp: the count, or the largest timestamp
/// where the count is larger.
pub open spec fn seconds_stamp(seconds: u64) -> i64 {
    if seconds > i64::MAX {
        i64::MAX
    } else {
        seconds as i64
    }
}

/// Turns a count of seconds into a timestamp.
pub fn seconds_timestamp(seconds: u64) -> (stamp: i64)
    ensures
        stamp == seconds_stamp(seconds),
        stamp >= 0,
{
    if seconds > 0x7fff_ffff_ffff_ffffu64 {
        i64::MAX
    } else {
        seconds as i64
    }
}

/// The current time in seconds since the Unix epoch; zero where the clock
/// stands before the epoch.
pub fn current_timestamp_secs() -> (now: i64)
    ensures
        now >= 0,
{
    let time = system_now();
    match since_unix_epoch(&time) {
        Some(elapsed) => seconds_timestamp(whole_seconds(&elapsed)),
        None => 0,
    }
}

} // verus!
