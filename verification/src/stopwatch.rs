//! A stopwatch that accumulates the frame times handed to it.

use vstd::prelude::*;

verus! {

/// Time gathered since the last reset, in microseconds.
#[derive(Clone, Copy, Debug, PartialEq, Eq, Structural)]
pub struct Stopwatch {
    pub elapsed: u64,
}

impl Stopwatch {
    /// The stopwatch after `delta` more microseconds.
    pub open spec fn ticked(self, delta: u64) -> Stopwatch {
        Stopwatch { elapsed: (self.elapsed + delta) as u64 }
    }

    /// Whether `delta` more microseconds can still be counted.
    pub open spec fn can_tick(self, delta: u64) -> bool {
        self.elapsed + delta <= u64::MAX
    }

    /// A stopwatch that has counted nothing.
    pub fn new() -> (watch: Stopwatch)
        ensures
            watch.elapsed == 0,
    {
        Stopwatch { elapsed: 0 }
    }

    /// The time gathered so far.
    pub fn elapsed(&self) -> (micros: u64)
        ensures
            micros == self.elapsed,
    {
        self.elapsed
    }

    /// Adds the time of one frame.
    pub fn tick(&mut self, delta: u64)
        requires
            old(self).can_tick(delta),
        ensures
            *final(self) == old(self).ticked(delta),
            final(self).elapsed == old(self).elapsed + delta,
    {
        self.elapsed = self.elapsed + delta;
    }

    /// Starts over from zero.
    pub fn reset(&mut self)
        ensures
            final(self).elapsed == 0,
    {
        self.elapsed = 0;
    }
}

} // verus!
