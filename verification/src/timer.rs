//! A countdown timer over integer milliseconds: it accumulates elapsed time
//! and reports when the configured duration has been reached.

use vstd::prelude::*;

verus! {

/// Accumulates elapsed milliseconds toward a fixed duration. The elapsed
/// count is capped at the duration, so `finished` means the accumulated
/// time has reached or passed the duration.
#[derive(Debug, Clone, Copy, PartialEq, Eq, Structural)]
pub struct Timer {
    pub duration_ms: u64,
    pub elapsed_ms: u64,
}

/// The elapsed count after one tick of `dt`: advances by `dt`, capped at the
/// duration.
pub open spec fn spec_ticked(elapsed: u64, dt: u64, duration: u64) -> u64 {
    if elapsed + dt >= duration {
        duration
    } else {
        (elapsed + dt) as u64
    }
}

impl Timer {
    /// The elapsed count never exceeds the duration.
    pub open spec fn wf(self) -> bool {
        self.elapsed_ms <= self.duration_ms
    }

    pub fn of_millis(duration_ms: u64) -> (r: Timer)
        ensures
            r.duration_ms == duration_ms,
            r.elapsed_ms == 0,
            r.wf(),
    {
        Timer { duration_ms, elapsed_ms: 0 }
    }

    /// Advance the timer by `dt` milliseconds.
    pub fn tick(&mut self, dt: u64)
        requires
            old(self).wf(),
        ensures
            final(self).duration_ms == old(self).duration_ms,
            final(self).elapsed_ms == spec_ticked(
                old(self).elapsed_ms,
                dt,
                old(self).duration_ms,
            ),
            final(self).wf(),
    {
        if dt >= self.duration_ms - self.elapsed_ms {
            self.elapsed_ms = self.duration_ms;
        } else {
            self.elapsed_ms = self.elapsed_ms + dt;
        }
    }

    /// True once the accumulated time has reached the duration.
    pub fn finished(&self) -> (r: bool)
        ensures
            r == (self.elapsed_ms >= self.duration_ms),
    {
        self.elapsed_ms >= self.duration_ms
    }

    /// Start the countdown over, keeping the duration.
    pub fn reset(&mut self)
        ensures
            final(self).duration_ms == old(self).duration_ms,
            final(self).elapsed_ms == 0,
            final(self).wf(),
    {
        self.elapsed_ms = 0;
    }
}

} // verus!
