//! A counter that hands out consecutive step numbers.
use vstd::prelude::*;

verus! {

/// Counts steps from a starting value: each `step` returns the next number, and `steps`
/// skips ahead.
#[derive(Debug)]
pub struct StepCounter {
    next: u32,
}

impl View for StepCounter {
    type V = u32;

    /// The number the next `step` returns.
    closed spec fn view(&self) -> u32 {
        self.next
    }
}

impl StepCounter {
    /// A counter whose first step is 0.
    pub fn from_zero() -> (r: Self)
        ensures
            r@ == 0,
    {
        Self::from(0)
    }

    /// A counter whose first step is 1.
    pub fn from_one() -> (r: Self)
        ensures
            r@ == 1,
    {
        Self::from(1)
    }

    /// A counter whose first step is `start`.
    pub fn from(start: u32) -> (r: Self)
        ensures
            r@ == start,
    {
        StepCounter { next: start }
    }

    /// Returns the current number and moves to the next one.
    pub fn step(&mut self) -> (r: u32)
        requires
            old(self)@ < u32::MAX,
        ensures
            r == old(self)@,
            final(self)@ == old(self)@ + 1,
    {
        let r = self.next;
        self.next = self.next + 1;
        r
    }

    /// Skips `skip` numbers and returns the last one skipped; with `skip` zero nothing
    /// moves and `None` comes back.
    pub fn steps(&mut self, skip: u32) -> (r: Option<u32>)
        requires
            old(self)@ + skip <= u32::MAX,
        ensures
            skip == 0 ==> r is None && final(self)@ == old(self)@,
            skip > 0 ==> r == Some((old(self)@ + skip - 1) as u32) && final(self)@ == old(self)@
                + skip,
    {
        if skip == 0 {
            None
        } else {
            let r = self.next + (skip - 1);
            self.next = self.next + skip;
            Some(r)
        }
    }
}

impl Default for StepCounter {
    fn default() -> (r: Self)
        ensures
            r@ == 1,
    {
        Self::from_one()
    }
}

} // verus!
