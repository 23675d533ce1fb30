//! The wall clock, read without any possibility of failure.
use vstd::prelude::*;

verus! {

#[verifier::external_type_specification]
#[verifier::external_body]
pub struct ExSystemTime(std::time::SystemTime);

#[verifier::external_type_specification]
#[verifier::external_body]
pub struct ExSystemTimeError(std::time::SystemTimeError);

/// Relies on SystemTime::now: the current wall-clock instant. Nothing is
/// promised of it.
#[verifier::external_body]
fn system_now() -> std::time::SystemTime {
    std::time::SystemTime::now()
}

/// Relies on SystemTime::duration_since: the time elapsed since the Unix
/// epoch, or an error for an instant before it.
#[verifier::external_body]
fn since_epoch(t: std::time::SystemTime) -> Result<std::time::Duration, std::time::SystemTimeError> {
    t.duration_since(std::time::UNIX_EPOCH)
}

/// Relies on SystemTimeError::duration: how far the instant lay before the epoch.
#[verifier::external_body]
fn before_epoch(e: std::time::SystemTimeError) -> std::time::Duration {
    e.duration()
}

/// Relies on Duration::as_millis: the whole milliseconds of a duration.
#[verifier::external_body]
pub(crate) fn duration_millis(d: std::time::Duration) -> u128 {
    d.as_millis()
}

/// Milliseconds as a signed count, capped at the largest `i64`.
fn capped_millis(ms: u128) -> (r: i64)
    ensures
        r >= 0,
        r == if ms <= i64::MAX { ms as int } else { i64::MAX as int },
{
    if ms <= i64::MAX as u128 {
        ms as i64
    } else {
        i64::MAX
    }
}

/// The wall clock in milliseconds since the Unix epoch, negative before it.
pub(crate) fn unix_now_millis() -> i64 {
    match since_epoch(system_now()) {
        Ok(d) => capped_millis(duration_millis(d)),
        Err(e) => -capped_millis(duration_millis(before_epoch(e))),
    }
}

} // verus!
