//! Frame timing.

use std::time::{Duration, Instant};
use vstd::prelude::*;

verus! {

/// A point in time of the monotonic clock. Nothing is known of it but its identity.
#[verifier::external_type_specification]
#[verifier::external_body]
pub struct ExInstant(Instant);

/// Reads the monotonic clock with `Instant::now`. What it returns depends on
/// when it is called, so nothing is claimed of it.
#[verifier::external_body]
fn now() -> Instant {
    Instant::now()
}

/// The time from `earlier` to `later` by `Instant::saturating_duration_since`,
/// which is zero where `earlier` is the later one and never panics. Nothing is
/// claimed of the length.
#[verifier::external_body]
fn duration_since(later: &Instant, earlier: &Instant) -> Duration {
    later.saturating_duration_since(*earlier)
}

/// Measures the time between frames and since its start.
pub struct Timer {
    start: Instant,
    last_update: Instant,
}

impl Timer {
    /// The moment the timer was started.
    pub closed spec fn started(&self) -> Instant {
        self.start
    }

    /// The moment that was marked last, or the start where none was.
    pub closed spec fn updated(&self) -> Instant {
        self.last_update
    }

    /// A timer started now: its start and its last update are the same moment.
    pub fn new() -> (timer: Timer)
        ensures
            timer.started() == timer.updated(),
    {
        let start = now();
        Timer { start, last_update: start }
    }

    /// Takes the clock reading `now` for the moment of the last update, and
    /// returns the time from the last update before it to `now`. The start
    /// stays what it was.
    pub fn mark(&mut self, now: Instant) -> (elapsed: Duration)
        ensures
            final(self).started() == old(self).started(),
            final(self).updated() == now,
    {
        let elapsed = duration_since(&now, &self.last_update);
        self.last_update = now;
        elapsed
    }

    /// The time since the last call, or since the start at the first call:
    /// reads the clock and marks the reading. The start stays what it was.
    pub fn delta(&mut self) -> (elapsed: Duration)
        ensures
            final(self).started() == old(self).started(),
    {
        let current = now();
        self.mark(current)
    }

    /// The time since the start. The timer is not changed.
    pub fn elapsed(&self) -> (elapsed: Duration) {
        let current = now();
        duration_since(&current, &self.start)
    }
}

impl Default for Timer {
    fn default() -> (timer: Timer)
        ensures
            timer.started() == timer.updated(),
    {
        Timer::new()
    }
}

} // verus!
