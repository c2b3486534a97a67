//! The monotonic clock and the machine facts that the components read.
//!
//! Time in the library is counted in whole milliseconds since a clock's
//! origin; every component that ages entries keeps such a clock and hands
//! the current reading to the verified logic.
use vstd::prelude::*;

verus! {

#[verifier::external_type_specification]
#[verifier::external_body]
pub struct ExInstant(std::time::Instant);

/// A monotonic clock: readings are milliseconds since its creation.
#[derive(Debug, Clone, Copy)]
pub struct Clock {
    origin: std::time::Instant,
}

/// Trusted: calls `std::time::Instant::now`; nothing is claimed of the
/// instant it returns.
#[verifier::external_body]
fn instant_now() -> std::time::Instant {
    std::time::Instant::now()
}

/// Trusted: calls `std::time::Instant::elapsed` and converts the duration to
/// whole milliseconds (saturating at `u64::MAX`); nothing is claimed of the
/// reading, which depends on the time of the call.
#[verifier::external_body]
fn millis_since(origin: &std::time::Instant) -> u64 {
    u64::try_from(origin.elapsed().as_millis()).unwrap_or(u64::MAX)
}

/// Trusted: calls `std::time::Instant::elapsed` and converts the duration to
/// whole nanoseconds (saturating at `u64::MAX`); nothing is claimed of the
/// reading, which depends on the time of the call.
#[verifier::external_body]
fn nanos_since(origin: &std::time::Instant) -> u64 {
    u64::try_from(origin.elapsed().as_nanos()).unwrap_or(u64::MAX)
}

/// Trusted: calls `num_cpus::get`; claims only that the count is at least
/// one, as its documentation states; the count depends on the machine.
#[verifier::external_body]
pub fn cpu_count() -> (r: usize)
    ensures
        r >= 1,
{
    num_cpus::get()
}

impl Clock {
    /// A clock whose origin is now.
    pub fn start() -> Clock {
        Clock { origin: instant_now() }
    }

    /// Milliseconds elapsed since the clock's origin.
    pub fn now_ms(&self) -> u64 {
        millis_since(&self.origin)
    }

    /// Nanoseconds elapsed since the clock's origin.
    pub fn now_ns(&self) -> u64 {
        nanos_since(&self.origin)
    }
}

} // verus!
