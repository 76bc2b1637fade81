//! The two clocks that the generator reads. Nothing is known of what a clock
//! returns: the functions that read one state what holds of every reading.

use std::time::Duration;
use std::time::Instant;
use std::time::SystemTime;
use std::time::SystemTimeError;
use std::time::UNIX_EPOCH;
use vstd::prelude::*;

verus! {

#[verifier::external_type_specification]
#[verifier::external_body]
pub struct ExInstant(Instant);

#[verifier::external_type_specification]
#[verifier::external_body]
pub struct ExSystemTime(SystemTime);

#[verifier::external_type_specification]
#[verifier::external_body]
pub struct ExSystemTimeError(SystemTimeError);

/// `Instant::now`: a reading of the monotonic clock.
pub assume_specification[ Instant::now ]() -> (now: Instant);

/// `Instant::saturating_duration_since`: the time from `earlier` to `later`,
/// zero where `earlier` is the later one. It does not panic.
pub assume_specification[ Instant::saturating_duration_since ](
    later: &Instant,
    earlier: Instant,
) -> (elapsed: Duration);

/// `Duration::as_nanos`: the whole duration in nanoseconds.
pub assume_specification[ Duration::as_nanos ](duration: &Duration) -> (nanos: u128);

/// `Duration::as_secs`: the whole seconds of the duration.
pub assume_specification[ Duration::as_secs ](duration: &Duration) -> (secs: u64);

/// `SystemTime::now`: a reading of the wall clock.
pub assume_specification[ SystemTime::now ]() -> (now: SystemTime);

/// `SystemTime::duration_since`: the time from `earlier` to `later`, or an
/// error where `earlier` is the later one.
pub assume_specification[ SystemTime::duration_since ](
    later: &SystemTime,
    earlier: SystemTime,
) -> (elapsed: Result<Duration, SystemTimeError>);

/// The constant `std::time::UNIX_EPOCH`.
#[verifier::external_body]
fn unix_epoch() -> (epoch: SystemTime) {
    UNIX_EPOCH
}

/// The nanoseconds that the monotonic clock has advanced from `earlier` to
/// `later`, zero where it has not.
pub(crate) fn nanos_between(later: &Instant, earlier: &Instant) -> (nanos: u128) {
    let elapsed = later.saturating_duration_since(*earlier);
    elapsed.as_nanos()
}

/// The seconds that the wall clock shows since the Unix epoch, zero where it
/// shows a time before it.
pub(crate) fn unix_secs() -> (secs: u64) {
    let now = SystemTime::now();
    match now.duration_since(unix_epoch()) {
        Ok(elapsed) => elapsed.as_secs(),
        Err(_) => 0,
    }
}

} // verus!
