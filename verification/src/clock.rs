//! The time of the machine.

use vstd::prelude::*;

use crate::error::{because, plain, told, ErrorKind, Failure, HostError};

verus! {

/// `std::time::SystemTime`, carried as it is.
#[verifier::external_type_specification]
#[verifier::external_body]
pub struct ExSystemTime(std::time::SystemTime);

/// `SystemTime::now` depends on the machine: nothing is said of the time.
pub assume_specification[ std::time::SystemTime::now ]() -> (now: std::time::SystemTime);

/// `SystemTime::duration_since` the Unix epoch, or what its error says. A machine
/// may have its clock before the epoch, so nothing is said of the answer.
#[verifier::external_body]
fn since_epoch(now: std::time::SystemTime) -> (elapsed: Result<core::time::Duration, String>) {
    match now.duration_since(std::time::UNIX_EPOCH) {
        Ok(elapsed) => Ok(elapsed),
        Err(error) => Err(error.to_string()),
    }
}

/// `Duration::as_millis`. A duration is carried as it is, so nothing is said of
/// the number.
pub assume_specification[ core::time::Duration::as_millis ](
    duration: &core::time::Duration,
) -> (millis: u128);

/// What a reading of the clock gives: the milliseconds since the Unix epoch,
/// where the clock is not before it.
pub fn clock_reading(elapsed_ms: Result<u128, String>) -> (reading: Result<u128, HostError>)
    ensures
        told(reading) == match elapsed_ms {
            Ok(millis) => Ok::<u128, Failure>(millis),
            Err(cause) => Err(because(plain(ErrorKind::ClockBeforeEpoch), cause@)),
        },
{
    match elapsed_ms {
        Ok(millis) => Ok(millis),
        Err(cause) => Err(HostError::plain(ErrorKind::ClockBeforeEpoch).because(cause.as_str())),
    }
}

/// The milliseconds since the Unix epoch.
pub fn now_ms() -> (now: Result<u128, HostError>)
    ensures
        now matches Err(error) ==> error@.cause matches Some(cause) && error@ == because(
            plain(ErrorKind::ClockBeforeEpoch),
            cause,
        ),
{
    match since_epoch(std::time::SystemTime::now()) {
        Ok(elapsed) => clock_reading(Ok(elapsed.as_millis())),
        Err(cause) => clock_reading(Err(cause)),
    }
}

} // verus!
