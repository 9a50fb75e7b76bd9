//! The 60 Hz counter pair: a delay timer and a sound timer, each an 8-bit
//! value decremented toward zero once per wall-clock interval.
//!
//! The pacing itself (one [`Timer::tick`] per 1/60 s) belongs to the host
//! driver; this module holds the counter state and the decrement rule, so the
//! instruction executor can read and write the counters at any rate without
//! affecting how fast they decay.

use vstd::prelude::*;

verus! {

/// The delay/sound counter pair.
pub struct Timer {
    dt: u8,
    st: u8,
}

impl Timer {
    /// The current delay counter value.
    pub closed spec fn delay(self) -> u8 {
        self.dt
    }

    /// The current sound counter value.
    pub closed spec fn sound(self) -> u8 {
        self.st
    }

    /// A fresh pair with both counters at zero.
    pub fn new() -> (t: Timer)
        ensures
            t.delay() == 0,
            t.sound() == 0,
    {
        Timer { dt: 0, st: 0 }
    }

    /// Sets the delay counter.
    pub fn set_dt(&mut self, dt_value: u8)
        ensures
            final(self).delay() == dt_value,
            final(self).sound() == old(self).sound(),
    {
        self.dt = dt_value;
    }

    /// Sets the sound counter.
    pub fn set_st(&mut self, st_value: u8)
        ensures
            final(self).sound() == st_value,
            final(self).delay() == old(self).delay(),
    {
        self.st = st_value;
    }

    /// Reads the delay counter.
    pub fn get_dt(&mut self) -> (v: u8)
        ensures
            v == old(self).delay(),
            *final(self) == *old(self),
    {
        self.dt
    }

    /// Reads the sound counter.
    pub fn get_st(&mut self) -> (v: u8)
        ensures
            v == old(self).sound(),
            *final(self) == *old(self),
    {
        self.st
    }

    /// One 60 Hz interval: each counter that is above zero drops by exactly
    /// one; a counter at zero stays at zero, so neither ever underflows.
    pub fn tick(&mut self)
        ensures
            final(self).delay() == if old(self).delay() > 0 { (old(self).delay() - 1) as u8 } else { 0u8 },
            final(self).sound() == if old(self).sound() > 0 { (old(self).sound() - 1) as u8 } else { 0u8 },
    {
        if self.dt > 0 {
            self.dt = self.dt - 1;
        }
        if self.st > 0 {
            self.st = self.st - 1;
        }
    }
}

} // verus!
