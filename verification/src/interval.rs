//! A wall-clock cycle counter: `tick` reports whether the configured
//! duration has elapsed since the last cycle began, and counts the cycles.
//! The clock readings come from std's monotonic clock and are trusted; the
//! cycle bookkeeping around them is verified.

use vstd::prelude::*;

verus! {

#[verifier::external_type_specification]
#[verifier::external_body]
pub struct ExInstant(std::time::Instant);

/// Relies on std's `Instant::now`: an opaque reading of the monotonic
/// clock. Nothing is assumed about the value.
#[verifier::external_body]
fn instant_now() -> std::time::Instant {
    std::time::Instant::now()
}

/// Relies on std's `Instant::elapsed`: the time since `start`, as an opaque
/// duration. Nothing is assumed about the value.
#[verifier::external_body]
fn instant_elapsed(start: &std::time::Instant) -> std::time::Duration {
    start.elapsed()
}

/// Relies on std's `Duration::from_secs`.
#[verifier::external_body]
fn duration_from_secs(seconds: u64) -> std::time::Duration {
    std::time::Duration::from_secs(seconds)
}

/// Relies on std's ordering of `Duration` (`PartialOrd::gt`). Nothing is
/// assumed about the outcome.
#[verifier::external_body]
fn duration_gt(a: &std::time::Duration, b: &std::time::Duration) -> bool {
    *a > *b
}

/// Counts how many times a fixed duration has elapsed, one `tick` poll at a
/// time.
pub struct Interval {
    cycles: usize,
    start_of_current_cycle: std::time::Instant,
    cycle_duration: std::time::Duration,
}

impl Interval {
    /// How many full cycles have been observed.
    pub closed spec fn spec_cycles(&self) -> int {
        self.cycles as int
    }

    /// The configured cycle duration.
    pub closed spec fn spec_duration(&self) -> std::time::Duration {
        self.cycle_duration
    }

    /// Starts counting cycles of the given duration from now.
    pub fn new(cycle_duration: std::time::Duration) -> (iv: Interval)
        ensures
            iv.spec_cycles() == 0,
            iv.spec_duration() == cycle_duration,
    {
        Interval { start_of_current_cycle: instant_now(), cycles: 0, cycle_duration }
    }

    /// Starts counting cycles of the given number of seconds from now.
    pub fn new_from_seconds(seconds: u64) -> (iv: Interval)
        ensures
            iv.spec_cycles() == 0,
    {
        Interval::new(duration_from_secs(seconds))
    }

    /// Reports whether a cycle has elapsed since the last time `tick` saw
    /// one begin; if so, counts it and starts the next cycle now.
    pub fn tick(&mut self) -> (cycled: bool)
        requires
            old(self).spec_cycles() < usize::MAX,
        ensures
            cycled ==> final(self).spec_cycles() == old(self).spec_cycles() + 1,
            cycled ==> final(self).spec_duration() == old(self).spec_duration(),
            !cycled ==> *final(self) == *old(self),
    {
        if duration_gt(&instant_elapsed(&self.start_of_current_cycle), &self.cycle_duration) {
            self.cycles += 1;
            self.start_of_current_cycle = instant_now();
            true
        } else {
            false
        }
    }
}

} // verus!
