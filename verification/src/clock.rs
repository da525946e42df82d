//! Clocks.

use vstd::prelude::*;

verus! {

/// A point in time of a clock that does not go back.
#[verifier::external_type_specification]
#[verifier::external_body]
pub struct ExInstant(std::time::Instant);

/// Calls `Instant::now` of std. Nothing is claimed of the time.
#[verifier::external_body]
pub(crate) fn this_instant() -> (now: std::time::Instant) {
    std::time::Instant::now()
}

/// Calls `Instant::elapsed` of std: the nanoseconds since `origin`. Nothing is
/// claimed of their number.
#[verifier::external_body]
pub(crate) fn nanos_since(origin: &std::time::Instant) -> (nanos: u128) {
    origin.elapsed().as_nanos()
}

/// A point in time of the system clock.
#[verifier::external_type_specification]
#[verifier::external_body]
pub struct ExSystemTime(std::time::SystemTime);

/// Calls `SystemTime::now` of std. Nothing is claimed of the time.
#[verifier::external_body]
fn system_time() -> (now: std::time::SystemTime) {
    std::time::SystemTime::now()
}

/// Calls `SystemTime::duration_since` of std: the seconds from the Unix epoch to
/// `time`, none if `time` is earlier. Nothing is claimed of their number.
#[verifier::external_body]
fn unix_seconds(time: &std::time::SystemTime) -> (seconds: Option<u64>) {
    match time.duration_since(std::time::UNIX_EPOCH) {
        Ok(span) => Some(span.as_secs()),
        Err(_) => None,
    }
}

/// The Unix time in seconds, zero if the clock shows a time before the epoch.
pub fn seconds_or_zero(seconds: Option<u64>) -> (timestamp: u64)
    ensures
        timestamp == match seconds {
            Some(s) => s,
            None => 0,
        },
{
    match seconds {
        Some(s) => s,
        None => 0,
    }
}

/// The Unix time in seconds now. Nothing is claimed of their number.
pub(crate) fn current_timestamp() -> (timestamp: u64) {
    seconds_or_zero(unix_seconds(&system_time()))
}

/// Nanoseconds in a second.
pub const NANOS_PER_SEC: u128 = 1_000_000_000;

/// A span of time.
#[derive(Clone, Copy, Debug, PartialEq, Eq)]
pub struct Duration {
    secs: u64,
    nanos: u32,
}

impl Duration {
    #[verifier::type_invariant]
    spec fn normal(self) -> bool {
        self.nanos < NANOS_PER_SEC
    }

    /// The span in nanoseconds.
    pub closed spec fn length(self) -> nat {
        (self.secs * NANOS_PER_SEC + self.nanos) as nat
    }

    /// A span of whole seconds.
    pub fn from_secs(secs: u64) -> (span: Duration)
        ensures
            span.length() == secs * NANOS_PER_SEC,
    {
        Duration { secs, nanos: 0 }
    }

    /// A span of milliseconds.
    pub fn from_millis(millis: u64) -> (span: Duration)
        ensures
            span.length() == millis * 1_000_000,
    {
        let rest: u32 = (millis % 1_000) as u32;
        Duration { secs: millis / 1_000, nanos: rest * 1_000_000 }
    }

    /// The span in nanoseconds.
    pub fn as_nanos(&self) -> (nanos: u128)
        ensures
            nanos == self.length(),
            nanos < 0x1_0000_0000_0000_0000 * NANOS_PER_SEC,
    {
        proof {
            use_type_invariant(&*self);
        }
        self.secs as u128 * NANOS_PER_SEC + self.nanos as u128
    }
}

} // verus!
