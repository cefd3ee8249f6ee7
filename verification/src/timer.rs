//! Countdown timers measured in whole milliseconds.
//!
//! A timer counts down from its period as the driver reports elapsed wall
//! time. When the countdown is used up the timer fires; a repeating timer
//! rearms itself to its period, a one-shot timer stays expired.

use vstd::prelude::*;

verus! {

/// A millisecond countdown, either periodic or one-shot.
#[derive(Copy, Clone, PartialEq, Eq, Structural, Debug)]
pub struct Timer {
    /// Milliseconds left until the timer fires.
    pub remaining_ms: u64,
    /// The full period the timer (re)arms to.
    pub period_ms: u64,
    /// Whether the timer rearms itself after firing.
    pub repeating: bool,
    /// Whether the countdown ran out on the most recent advance.
    pub fired: bool,
}

impl Timer {
    /// The timer after `elapsed_ms` more milliseconds have passed.
    pub open spec fn spec_tick(self, elapsed_ms: u64) -> Timer {
        if elapsed_ms < self.remaining_ms {
            Timer {
                remaining_ms: (self.remaining_ms - elapsed_ms) as u64,
                period_ms: self.period_ms,
                repeating: self.repeating,
                fired: false,
            }
        } else {
            Timer {
                remaining_ms: if self.repeating {
                    self.period_ms
                } else {
                    0
                },
                period_ms: self.period_ms,
                repeating: self.repeating,
                fired: true,
            }
        }
    }

    /// A fresh, unfired timer armed to `period_ms`.
    pub fn new(period_ms: u64, repeating: bool) -> (r: Timer)
        requires
            period_ms >= 1,
        ensures
            r == (Timer { remaining_ms: period_ms, period_ms, repeating, fired: false }),
    {
        Timer { remaining_ms: period_ms, period_ms, repeating, fired: false }
    }

    /// Advances the countdown by `elapsed_ms` milliseconds.
    pub fn tick(&mut self, elapsed_ms: u64)
        ensures
            *final(self) == old(self).spec_tick(elapsed_ms),
    {
        if elapsed_ms < self.remaining_ms {
            self.remaining_ms = self.remaining_ms - elapsed_ms;
            self.fired = false;
        } else {
            self.remaining_ms = if self.repeating {
                self.period_ms
            } else {
                0
            };
            self.fired = true;
        }
    }
}

} // verus!
