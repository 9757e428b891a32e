//! Clock access. Every time-dependent decision in the library takes the
//! current time as an argument; only the functions here read a clock.
//!
//! Two clocks are read: the wall clock (`SystemTime`), for times that are
//! recorded or compared as Unix times, and the monotonic clock (`Instant`),
//! for the egress pool's deadlines, which must not move when the wall clock
//! is set back or forward.

use vstd::prelude::*;

verus! {

#[verifier::external_type_specification]
#[verifier::external_body]
pub struct ExInstant(std::time::Instant);

/// Milliseconds since the Unix epoch, read from `std::time::SystemTime::now`.
///
/// Nothing is promised of the value: the clock may jump in either direction,
/// and a clock set before 1970 reads as 0.
#[verifier::external_body]
pub(crate) fn now_millis() -> u64 {
    std::time::SystemTime::now()
        .duration_since(std::time::UNIX_EPOCH)
        .map(|elapsed| elapsed.as_millis() as u64)
        .unwrap_or(0)
}

/// The current instant of the monotonic clock (`std::time::Instant::now`).
/// Nothing is promised of it but that it can be measured from later.
#[verifier::external_body]
pub(crate) fn instant_now() -> std::time::Instant {
    std::time::Instant::now()
}

/// Whole milliseconds elapsed on the monotonic clock since `origin`
/// (`std::time::Instant::elapsed`). Nothing is promised of the value: it
/// depends on when the call is made.
#[verifier::external_body]
pub(crate) fn elapsed_millis(origin: &std::time::Instant) -> u64 {
    origin.elapsed().as_millis() as u64
}

/// Whole seconds since the Unix epoch.
pub fn unix_now_secs() -> (secs: u64)
    ensures
        secs <= u64::MAX / 1000,
{
    now_millis() / 1000
}

/// A monotonic millisecond clock: the wall-clock reading taken when it was
/// started, advanced by the monotonic time elapsed since. Its readings are
/// never below the reading at start; that later readings do not go back
/// either rests on `std::time::Instant`, of which no contract here speaks.
#[derive(Debug, Clone, Copy)]
pub struct MonotonicClock {
    /// The monotonic instant the clock was started at.
    pub origin: std::time::Instant,
    /// The wall-clock reading, in milliseconds since the Unix epoch, at start.
    pub origin_millis: u64,
}

impl MonotonicClock {
    /// A clock started now.
    pub(crate) fn start() -> (clock: MonotonicClock) {
        MonotonicClock { origin: instant_now(), origin_millis: now_millis() }
    }

    /// The current reading, in milliseconds: never earlier than the reading
    /// at start.
    pub fn now(&self) -> (millis: u64)
        ensures
            millis >= self.origin_millis,
    {
        self.origin_millis.saturating_add(elapsed_millis(&self.origin))
    }
}

} // verus!
