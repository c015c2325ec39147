//! Reading the system clock as a timestamp.
use std::time::Duration;
use std::time::SystemTimeError;
use vstd::prelude::*;

verus! {

/// `std::time::SystemTimeError`, the error of a system clock that stands before the moment it
/// is compared with. It is handed on unread.
#[verifier::external_type_specification]
#[verifier::external_body]
pub struct ExSystemTimeError(SystemTimeError);

/// Calls `SystemTime::elapsed` on `UNIX_EPOCH`: the time that the system clock has measured since
/// the Unix epoch, or the clock's error where it stands before the epoch. Nothing is claimed of
/// the outcome, which differs from call to call.
#[verifier::external_body]
fn since_unix_epoch() -> (measured: Result<Duration, SystemTimeError>) {
    std::time::UNIX_EPOCH.elapsed()
}

/// Calls `Duration::as_nanos`: the whole duration in nanoseconds. Nothing is claimed of the
/// number, as a duration shows nothing of itself here.
#[verifier::external_body]
fn whole_nanos(duration: &Duration) -> (nanos: u128) {
    duration.as_nanos()
}

/// The timestamp for `nanos` nanoseconds since the Unix epoch: the number itself, or the largest
/// timestamp where it is beyond that.
pub open spec fn clamped(nanos: u128) -> u64 {
    if nanos <= u64::MAX {
        nanos as u64
    } else {
        u64::MAX
    }
}

/// The timestamp for a reading of the system clock: the clamped number of nanoseconds that it
/// measured since the Unix epoch, and zero for a clock that stands before the epoch.
pub fn timestamp_of(nanos_since_epoch: Option<u128>) -> (timestamp: u64)
    ensures
        timestamp == match nanos_since_epoch {
            Some(nanos) => clamped(nanos),
            None => 0,
        },
{
    match nanos_since_epoch {
        Some(nanos) => if nanos <= u64::MAX as u128 {
            nanos as u64
        } else {
            u64::MAX
        },
        None => 0,
    }
}

/// Reads the system clock. The timestamp is whatever the clock says at the moment of the call, so
/// nothing is promised of it.
pub fn now() -> u64 {
    match since_unix_epoch() {
        Ok(measured) => timestamp_of(Some(whole_nanos(&measured))),
        Err(_) => timestamp_of(None),
    }
}

} // verus!
