use crate::vec3::Vec3;
use vstd::prelude::*;

verus! {

/// Bound on the magnitude of play-area coordinates, in milli-units
/// (ten thousand units): keeps the corner computations and the eased
/// interpolations free of overflow.
pub const COORD_LIMIT: i64 = 10_000_000;

/// The rectangular region that play happens in: a centre `origin` and
/// the full `width` and `height`, all in milli-units.
#[derive(Clone, Copy, PartialEq, Eq, Structural, Debug)]
pub struct PlayAreaDescriptor {
    pub width: i64,
    pub height: i64,
    pub origin: Vec3,
}

impl PlayAreaDescriptor {
    /// A well-formed play area has non-negative extents and all of
    /// its coordinates within the fixed coordinate bound.
    pub open spec fn wf(&self) -> bool {
        &&& 0 <= self.width <= COORD_LIMIT
        &&& 0 <= self.height <= COORD_LIMIT
        &&& -COORD_LIMIT <= self.origin.x <= COORD_LIMIT
        &&& -COORD_LIMIT <= self.origin.y <= COORD_LIMIT
        &&& -COORD_LIMIT <= self.origin.z <= COORD_LIMIT
    }

    pub fn new(width: i64, height: i64, origin: Vec3) -> (r: PlayAreaDescriptor)
        requires
            0 <= width <= COORD_LIMIT,
            0 <= height <= COORD_LIMIT,
            -COORD_LIMIT <= origin.x <= COORD_LIMIT,
            -COORD_LIMIT <= origin.y <= COORD_LIMIT,
            -COORD_LIMIT <= origin.z <= COORD_LIMIT,
        ensures
            r == (PlayAreaDescriptor { width, height, origin }),
            r.wf(),
    {
        PlayAreaDescriptor { width, height, origin }
    }

    pub open spec fn spec_min_x(&self) -> int {
        self.origin.x - self.width / 2
    }

    pub open spec fn spec_max_x(&self) -> int {
        self.origin.x + self.width / 2
    }

    pub open spec fn spec_min_y(&self) -> int {
        self.origin.y - self.height / 2
    }

    pub open spec fn spec_max_y(&self) -> int {
        self.origin.y + self.height / 2
    }

    pub fn min_x(&self) -> (r: i64)
        requires
            self.wf(),
        ensures
            r == self.spec_min_x(),
    {
        self.origin.x - self.width / 2
    }

    pub fn max_x(&self) -> (r: i64)
        requires
            self.wf(),
        ensures
            r == self.spec_max_x(),
    {
        self.origin.x + self.width / 2
    }

    pub fn min_y(&self) -> (r: i64)
        requires
            self.wf(),
        ensures
            r == self.spec_min_y(),
    {
        self.origin.y - self.height / 2
    }

    pub fn max_y(&self) -> (r: i64)
        requires
            self.wf(),
        ensures
            r == self.spec_max_y(),
    {
        self.origin.y + self.height / 2
    }

    /// Whether a position lies strictly outside the play area on the
    /// x or y axis.
    pub open spec fn spec_is_outside(&self, p: Vec3) -> bool {
        ||| p.x < self.spec_min_x()
        ||| p.x > self.spec_max_x()
        ||| p.y < self.spec_min_y()
        ||| p.y > self.spec_max_y()
    }

    pub fn is_outside(&self, p: &Vec3) -> (r: bool)
        requires
            self.wf(),
        ensures
            r == self.spec_is_outside(*p),
    {
        p.x < self.min_x() || p.x > self.max_x() || p.y < self.min_y() || p.y > self.max_y()
    }
}

} // verus!
