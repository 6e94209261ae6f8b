use vstd::prelude::*;

verus! {

/// An 8-bit down-counter, saturating at zero.
///
/// The delay and sound timers are two independent instances; the host
/// drives `decrement` once per tick.
#[derive(Clone, Copy, Debug)]
pub struct Timer(u8);

impl Timer {
    /// The current counter value, for use in contracts.
    pub closed spec fn view(self) -> u8 {
        self.0
    }

    /// A fresh timer holding zero.
    pub fn new() -> (r: Self)
        ensures
            r@ == 0,
    {
        Timer(0)
    }

    /// The current counter value.
    pub fn get(&self) -> (r: u8)
        ensures
            r == self@,
    {
        self.0
    }

    /// Assign the counter.
    pub fn set(&mut self, value: u8)
        ensures
            final(self)@ == value,
    {
        self.0 = value;
    }

    /// Count down by one; a timer at zero stays at zero.
    pub fn decrement(&mut self)
        ensures
            final(self)@ == if old(self)@ > 0 { (old(self)@ - 1) as u8 } else { 0u8 },
    {
        if self.0 > 0 {
            self.0 = self.0 - 1;
        }
    }
}

} // verus!
