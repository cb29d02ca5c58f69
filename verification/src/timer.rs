//! The timer subsystem: two independent 8-bit countdown registers (delay and
//! sound). A driver ticks them at a fixed 60 Hz rate, independent of the
//! interpreter's own clock; each tick decrements a nonzero counter by one and
//! leaves a zero counter at zero.

use vstd::prelude::*;

verus! {

/// The two hardware countdown registers.
pub struct Timers {
    pub delay: u8,
    pub sound: u8,
}

impl Timers {
    /// Both counters start at zero.
    pub fn new() -> (t: Timers)
        ensures
            t.delay == 0,
            t.sound == 0,
    {
        Timers { delay: 0, sound: 0 }
    }

    /// One 60 Hz tick: each nonzero counter is decremented by one; a counter
    /// that has reached zero stays at zero (floors, never wraps negative).
    pub fn tick(&mut self)
        ensures
            final(self).delay == if old(self).delay > 0 { old(self).delay - 1 } else { 0 },
            final(self).sound == if old(self).sound > 0 { old(self).sound - 1 } else { 0 },
    {
        if self.delay > 0 {
            self.delay = self.delay - 1;
        }
        if self.sound > 0 {
            self.sound = self.sound - 1;
        }
    }
}

} // verus!
