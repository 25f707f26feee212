use std::time::{Duration, Instant, SystemTime, SystemTimeError};
use vstd::prelude::*;

verus! {

#[verifier::external_type_specification]
#[verifier::external_body]
pub struct ExInstant(std::time::Instant);

#[verifier::external_type_specification]
#[verifier::external_body]
pub struct ExSystemTime(std::time::SystemTime);

#[verifier::external_type_specification]
#[verifier::external_body]
pub struct ExSystemTimeError(std::time::SystemTimeError);

/// `std::time::Instant::now`: the current moment of a monotonic clock;
/// nothing is stated of it.
#[verifier::external_body]
fn instant_now() -> Instant {
    Instant::now()
}

/// `std::time::Instant::elapsed`: the time passed since `start`; nothing is
/// stated of it, since it depends on the clock.
#[verifier::external_body]
fn instant_elapsed(start: &Instant) -> Duration {
    start.elapsed()
}

/// `std::time::Duration::as_secs`: the whole seconds of `d` (a `Duration`
/// has no view here, so nothing is stated).
#[verifier::external_body]
fn duration_as_secs(d: &Duration) -> u64 {
    d.as_secs()
}

/// `std::time::Duration::as_millis`: the whole milliseconds of `d`.
#[verifier::external_body]
fn duration_as_millis(d: &Duration) -> u128 {
    d.as_millis()
}

/// `std::time::Duration::as_micros`: the whole microseconds of `d`.
#[verifier::external_body]
fn duration_as_micros(d: &Duration) -> u128 {
    d.as_micros()
}

/// `std::time::Duration::as_nanos`: the whole nanoseconds of `d`.
#[verifier::external_body]
fn duration_as_nanos(d: &Duration) -> u128 {
    d.as_nanos()
}

/// `std::time::SystemTime::now`: the current wall-clock time; nothing is stated of it.
#[verifier::external_body]
fn system_time_now() -> SystemTime {
    SystemTime::now()
}

/// `std::time::SystemTime::duration_since` with the UNIX epoch: the time
/// since 1970-01-01, or an error for a clock set before it.
#[verifier::external_body]
fn since_unix_epoch(t: &SystemTime) -> Result<Duration, SystemTimeError> {
    t.duration_since(std::time::UNIX_EPOCH)
}

/// The current UNIX time in whole seconds; 0 for a clock set before 1970.
pub fn unix_now() -> (r: i64)
    ensures
        r >= 0,
{
    let t = system_time_now();
    match since_unix_epoch(&t) {
        Ok(d) => {
            let secs = duration_as_secs(&d);
            if secs <= i64::MAX as u64 {
                secs as i64
            } else {
                i64::MAX
            }
        },
        Err(_) => 0,
    }
}

/// Measures the time passed since it was made.
#[derive(Debug, Clone, Copy)]
pub struct Timer {
    start: Instant,
}

impl Timer {
    /// A timer that starts now.
    pub fn new() -> Self {
        Self { start: instant_now() }
    }

    /// Whole seconds since the timer started.
    pub fn seconds(&self) -> u64 {
        let elapsed = instant_elapsed(&self.start);
        duration_as_secs(&elapsed)
    }

    /// Whole milliseconds since the timer started.
    pub fn millis(&self) -> u128 {
        let elapsed = instant_elapsed(&self.start);
        duration_as_millis(&elapsed)
    }

    /// Whole microseconds since the timer started.
    pub fn micros(&self) -> u128 {
        let elapsed = instant_elapsed(&self.start);
        duration_as_micros(&elapsed)
    }

    /// Whole nanoseconds since the timer started.
    pub fn nanos(&self) -> u128 {
        let elapsed = instant_elapsed(&self.start);
        duration_as_nanos(&elapsed)
    }
}

} // verus!
