//! A count-up timer over whole milliseconds.

use vstd::prelude::*;

verus! {

/// A timer that is finished once the time ticked since its last reset has
/// reached its duration.
#[derive(Clone, Copy, Debug)]
pub struct Timer {
    /// How long the timer runs, in milliseconds.
    pub duration_ms: u64,
    /// The time ticked since the last reset, in milliseconds.
    pub elapsed_ms: u64,
}

impl Timer {
    /// Whether the elapsed time has reached the duration.
    pub open spec fn is_finished(self) -> bool {
        self.elapsed_ms >= self.duration_ms
    }

    /// The timer after `delta_ms` more milliseconds; the elapsed time stops
    /// at the largest value a `u64` holds.
    pub open spec fn ticked(self, delta_ms: u64) -> Timer {
        Timer {
            duration_ms: self.duration_ms,
            elapsed_ms: if self.elapsed_ms + delta_ms > u64::MAX {
                u64::MAX
            } else {
                (self.elapsed_ms + delta_ms) as u64
            },
        }
    }

    /// The timer with no time elapsed.
    pub open spec fn rewound(self) -> Timer {
        Timer { duration_ms: self.duration_ms, elapsed_ms: 0 }
    }

    /// A timer of the given duration with no time elapsed.
    pub fn new(duration_ms: u64) -> (timer: Timer)
        ensures
            timer == (Timer { duration_ms, elapsed_ms: 0 }),
    {
        Timer { duration_ms, elapsed_ms: 0 }
    }

    /// Advances the timer by `delta_ms` milliseconds.
    pub fn tick(&mut self, delta_ms: u64)
        ensures
            *final(self) == old(self).ticked(delta_ms),
    {
        if delta_ms > u64::MAX - self.elapsed_ms {
            self.elapsed_ms = u64::MAX;
        } else {
            self.elapsed_ms = self.elapsed_ms + delta_ms;
        }
    }

    /// Whether the elapsed time has reached the duration.
    pub fn finished(&self) -> (done: bool)
        ensures
            done == self.is_finished(),
    {
        self.elapsed_ms >= self.duration_ms
    }

    /// Starts the timer over.
    pub fn reset(&mut self)
        ensures
            *final(self) == old(self).rewound(),
            final(self).elapsed_ms == 0,
    {
        self.elapsed_ms = 0;
    }
}

/// A timer whose duration is not zero is unfinished right after a reset.
pub proof fn lemma_reset_restarts(timer: Timer)
    requires
        timer.duration_ms > 0,
    ensures
        !timer.rewound().is_finished(),
{
}

} // verus!
