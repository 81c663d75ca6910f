//! Instants and durations on a microsecond grid.
use vstd::prelude::*;

verus! {

/// A span of time in whole microseconds.
#[derive(Clone, Copy, Debug, PartialEq, Eq, Structural)]
pub struct Duration {
    pub micros: u64,
}

impl Duration {
    pub fn from_micros(micros: u64) -> (r: Duration)
        ensures
            r.micros == micros,
    {
        Duration { micros }
    }

    pub fn from_millis(millis: u64) -> (r: Duration)
        requires
            millis * 1000 <= u64::MAX,
        ensures
            r.micros == millis * 1000,
    {
        Duration { micros: millis * 1000 }
    }

    pub fn from_secs(secs: u64) -> (r: Duration)
        requires
            secs * 1_000_000 <= u64::MAX,
        ensures
            r.micros == secs * 1_000_000,
    {
        Duration { micros: secs * 1_000_000 }
    }

    pub fn as_micros(&self) -> (r: u64)
        ensures
            r == self.micros,
    {
        self.micros
    }
}

/// A point in time, in microseconds since the start of the time line.
#[derive(Clone, Copy, Debug, PartialEq, Eq, Structural)]
pub struct Instant {
    pub micros: u64,
}

impl Instant {
    /// The start of the time line, before any stream has begun.
    pub fn min_value() -> (r: Instant)
        ensures
            r.micros == 0,
    {
        Instant { micros: 0 }
    }

    pub fn from_micros(micros: u64) -> (r: Instant)
        ensures
            r.micros == micros,
    {
        Instant { micros }
    }

    pub fn as_micros(&self) -> (r: u64)
        ensures
            r == self.micros,
    {
        self.micros
    }
}

} // verus!
