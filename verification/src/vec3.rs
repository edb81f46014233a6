use vstd::prelude::*;

verus! {

/// Saturating addition on `i64`, as a mathematical function.
pub open spec fn spec_sat_add(a: int, b: int) -> int {
    if a + b > i64::MAX {
        i64::MAX as int
    } else if a + b < i64::MIN {
        i64::MIN as int
    } else {
        a + b
    }
}

/// Adds two coordinates, saturating at the integer bounds instead of
/// overflowing. Positions and velocities never come near the bounds
/// in play, but the saturation keeps every motion step total.
pub fn sat_add(a: i64, b: i64) -> (r: i64)
    ensures
        r == spec_sat_add(a as int, b as int),
{
    let wide: i128 = a as i128 + b as i128;
    if wide > i64::MAX as i128 {
        i64::MAX
    } else if wide < i64::MIN as i128 {
        i64::MIN
    } else {
        wide as i64
    }
}

/// A three-component vector of fixed-point coordinates in
/// milli-units. Serves as both a position and a velocity.
#[derive(Clone, Copy, PartialEq, Eq, Structural, Debug)]
pub struct Vec3 {
    pub x: i64,
    pub y: i64,
    pub z: i64,
}

/// Componentwise saturating vector addition, as a mathematical
/// function over the components.
pub open spec fn spec_vec_add(a: Vec3, b: Vec3) -> Vec3 {
    Vec3 {
        x: spec_sat_add(a.x as int, b.x as int) as i64,
        y: spec_sat_add(a.y as int, b.y as int) as i64,
        z: spec_sat_add(a.z as int, b.z as int) as i64,
    }
}

impl Vec3 {
    /// Builds a vector from its milli-unit components.
    pub fn new(x: i64, y: i64, z: i64) -> (r: Vec3)
        ensures
            r == (Vec3 { x, y, z }),
    {
        Vec3 { x, y, z }
    }

    /// The zero vector.
    pub fn zero() -> (r: Vec3)
        ensures
            r == (Vec3 { x: 0i64, y: 0i64, z: 0i64 }),
    {
        Vec3 { x: 0, y: 0, z: 0 }
    }

    /// Componentwise saturating addition; how a velocity moves a
    /// position by one frame.
    pub fn add(&self, other: &Vec3) -> (r: Vec3)
        ensures
            r == spec_vec_add(*self, *other),
    {
        Vec3 { x: sat_add(self.x, other.x), y: sat_add(self.y, other.y), z: sat_add(
            self.z,
            other.z,
        ) }
    }
}

} // verus!
