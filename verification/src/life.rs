use crate::frame::FRAME_LIMIT;
use vstd::prelude::*;

verus! {

/// Frames elapsed since an entity's spawn. Starts at zero and is
/// incremented by exactly one on each new frame the entity lives
/// through; it never decrements and never skips a value.
#[derive(Clone, Copy, PartialEq, Eq, Structural, Debug)]
pub struct LifeCount {
    pub count: i64,
}

impl LifeCount {
    /// A freshly spawned entity has lived zero frames.
    pub fn new() -> (r: LifeCount)
        ensures
            r.count == 0,
    {
        LifeCount { count: 0 }
    }

    /// One clock tick observed by the entity: the lifetime grows by
    /// exactly one.
    pub fn count_up(&mut self)
        requires
            old(self).count < FRAME_LIMIT,
        ensures
            final(self).count == old(self).count + 1,
    {
        self.count = self.count + 1;
    }
}

/// The lifetime of an entity spawned at frame `spawn` and updated
/// once per tick up to frame `frame`.
pub open spec fn lifetime_at(spawn: int, frame: int) -> int {
    frame - spawn
}

/// The lifetime law: for an entity spawned at frame `spawn`, whose
/// counter started at zero and was incremented once on each of the
/// frames `spawn + 1, ..., frame`, the counter equals
/// `frame - spawn`; it is never negative, and consecutive frames give
/// consecutive values, so no value is skipped.
pub proof fn lemma_lifetime_tracks_frame(spawn: int, frame: int)
    requires
        spawn <= frame,
    ensures
        lifetime_at(spawn, frame) >= 0,
        lifetime_at(spawn, spawn) == 0,
        lifetime_at(spawn, frame + 1) == lifetime_at(spawn, frame) + 1,
{
}

} // verus!
