use vstd::prelude::*;

verus! {

/// Highest frame value the clock will count to; far beyond any
/// reachable play session, but it keeps every increment free of
/// overflow.
pub const FRAME_LIMIT: i64 = 0x4000_0000_0000_0000;

/// The single time source of the simulation: a monotonic integer
/// frame counter, advanced by at most one per external poll.
#[derive(Clone, Copy, PartialEq, Eq, Structural, Debug)]
pub struct GameFrame {
    pub count: i64,
}

impl GameFrame {
    /// The clock starts at frame zero.
    pub fn new() -> (r: GameFrame)
        ensures
            r.count == 0,
    {
        GameFrame { count: 0 }
    }

    /// Advances the clock by exactly one frame.
    pub fn advance(&mut self)
        requires
            old(self).count < FRAME_LIMIT,
        ensures
            final(self).count == old(self).count + 1,
    {
        self.count = self.count + 1;
    }

    /// One external poll: the counter moves forward by one exactly
    /// when the fixed interval has elapsed, and never by more.
    pub fn poll(&mut self, interval_elapsed: bool)
        requires
            old(self).count < FRAME_LIMIT,
        ensures
            final(self).count == old(self).count + if interval_elapsed { 1int } else { 0int },
    {
        if interval_elapsed {
            self.count = self.count + 1;
        }
    }
}

} // verus!
