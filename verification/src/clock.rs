//! The wall clock, in milliseconds since the Unix epoch.

use vstd::prelude::*;

verus! {

/// `std::time::SystemTime`, a reading of the wall clock, opaque to the
/// verifier.
#[verifier::external_type_specification]
#[verifier::external_body]
pub struct ExSystemTime(std::time::SystemTime);

/// `std::time::SystemTimeError`, the error of a reading that lies before
/// the moment it is compared with, opaque to the verifier.
#[verifier::external_type_specification]
#[verifier::external_body]
pub struct ExSystemTimeError(std::time::SystemTimeError);

/// Calls `std::time::SystemTime::now`. Nothing is claimed of the reading.
#[verifier::external_body]
fn read_clock() -> (now: std::time::SystemTime) {
    std::time::SystemTime::now()
}

/// Calls `std::time::SystemTime::duration_since` with the Unix epoch. The
/// call fails for a reading before the epoch. Nothing is claimed of the
/// result.
#[verifier::external_body]
fn since_epoch(reading: &std::time::SystemTime) -> (elapsed: Result<
    std::time::Duration,
    std::time::SystemTimeError,
>) {
    reading.duration_since(std::time::UNIX_EPOCH)
}

/// Calls `std::time::Duration::as_millis`. Nothing is claimed of the
/// result.
#[verifier::external_body]
fn whole_millis(elapsed: &std::time::Duration) -> (millis: u128) {
    elapsed.as_millis()
}

/// The lower 64 bits of a count of milliseconds, which hold it for some
/// 584 million years after the epoch.
pub fn timestamp_from_millis(millis: u128) -> (timestamp_ms: u64)
    ensures
        timestamp_ms == millis % 0x1_0000_0000_0000_0000,
{
    let low: u128 = millis % 0x1_0000_0000_0000_0000;
    low as u64
}

/// Milliseconds since the Unix epoch by the wall clock. A clock that is
/// set before the epoch reads as zero. The clock may be set back between
/// two readings.
pub fn now_ms() -> (timestamp_ms: u64) {
    let reading = match since_epoch(&read_clock()) {
        Ok(elapsed) => Some(whole_millis(&elapsed)),
        Err(_) => None,
    };
    timestamp_from_reading(reading)
}

/// The timestamp for a reading of the clock: the milliseconds that it
/// counts since the epoch, by their lower 64 bits, and zero for a reading
/// that lies before the epoch and so counts none.
pub fn timestamp_from_reading(millis_since_epoch: Option<u128>) -> (timestamp_ms: u64)
    ensures
        timestamp_ms == match millis_since_epoch {
            Some(millis) => millis % 0x1_0000_0000_0000_0000,
            None => 0,
        },
{
    match millis_since_epoch {
        Some(millis) => timestamp_from_millis(millis),
        None => 0,
    }
}

} // verus!
