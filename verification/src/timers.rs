//! The timer bank: two independent 8-bit counters decremented once per frame.
use vstd::prelude::*;

verus! {

/// The delay and sound timers. Both saturate at zero, never wrapping.
pub struct Timers {
    pub dt_register: u8,
    pub st_register: u8,
}

impl Timers {
    /// Both timers start at zero.
    pub fn default() -> (r: Self)
        ensures
            r.dt_register == 0,
            r.st_register == 0,
    {
        Timers { dt_register: 0, st_register: 0 }
    }

    /// Decrement each nonzero timer by one; a timer at zero stays at zero.
    pub fn decrement_timers(&mut self)
        ensures
            final(self).dt_register
                == if old(self).dt_register > 0 { (old(self).dt_register - 1) as u8 } else { 0u8 },
            final(self).st_register
                == if old(self).st_register > 0 { (old(self).st_register - 1) as u8 } else { 0u8 },
    {
        if self.dt_register > 0 {
            self.dt_register = self.dt_register - 1;
        }
        if self.st_register > 0 {
            self.st_register = self.st_register - 1;
        }
    }
}

} // verus!
