use crate::trig::{cos_milli, sin_milli, spec_cos_milli, spec_sin_milli};
use crate::vec3::{spec_sat_add, sat_add, Vec3};
use vstd::prelude::*;

verus! {

/// Bound on a bullet's speed, in milli-units per frame.
pub const SPEED_LIMIT: i64 = 1_000_000;

/// The motion state of an enemy-pattern bullet: a direction in
/// normalized millidegrees, a speed in milli-units per frame, and
/// the vanished flag the pattern interpreter can raise.
#[derive(Clone, Copy, PartialEq, Eq, Structural, Debug)]
pub struct Bullet {
    pub direction: i64,
    pub speed: i64,
    pub vanished: bool,
}

impl Bullet {
    /// A usable bullet state: normalized direction, bounded
    /// non-negative speed.
    pub open spec fn wf(&self) -> bool {
        &&& 0 <= self.direction < 360_000
        &&& 0 <= self.speed <= SPEED_LIMIT
    }

    /// A bullet at rest, pointing up, visible.
    pub fn new() -> (r: Bullet)
        ensures
            r == (Bullet { direction: 0i64, speed: 0i64, vanished: false }),
            r.wf(),
    {
        Bullet { direction: 0, speed: 0, vanished: false }
    }

    /// Moves a position by one frame of this bullet's motion.
    pub fn update(&self, translation: &mut Vec3)
        requires
            self.wf(),
        ensures
            *final(translation) == spec_bullet_step(
                *old(translation),
                self.direction as int,
                self.speed as int,
            ),
    {
        *translation = bullet_step(translation, self);
    }
}

/// The signed fixed-point product `trig_milli * speed / 1000`: how
/// far one frame moves the bullet along one axis.
pub open spec fn spec_axis_delta(trig: int, speed: int) -> int {
    if trig >= 0 {
        (trig * speed) / 1000
    } else {
        -((-trig * speed) / 1000)
    }
}

fn axis_delta(trig: i64, speed: i64) -> (r: i64)
    requires
        -1000 <= trig <= 1000,
        0 <= speed <= SPEED_LIMIT,
    ensures
        r == spec_axis_delta(trig as int, speed as int),
{
    proof {
        assert(0 <= 1000 * (speed as int) <= 1_000_000_000) by (nonlinear_arith)
            requires
                0 <= speed <= 1_000_000,
        ;
        assert(trig >= 0 ==> 0 <= (trig as int) * speed <= 1000 * (speed as int))
            by (nonlinear_arith)
            requires
                -1000 <= trig <= 1000,
                0 <= speed,
        ;
        assert(trig < 0 ==> 0 <= (-trig as int) * speed <= 1000 * (speed as int))
            by (nonlinear_arith)
            requires
                -1000 <= trig <= 1000,
                0 <= speed,
        ;
    }
    if trig >= 0 {
        (trig * speed) / 1000
    } else {
        -((-trig) * speed / 1000)
    }
}

/// The position one frame of motion takes a bullet to: the sine and
/// cosine of its direction, scaled by its speed, added to the
/// position (x grows towards the right of the aim convention, y
/// towards its zero direction).
pub open spec fn spec_bullet_step(pos: Vec3, direction: int, speed: int) -> Vec3 {
    let dx = spec_axis_delta(spec_sin_milli(direction), speed);
    let dy = spec_axis_delta(spec_cos_milli(direction), speed);
    Vec3 {
        x: spec_sat_add(pos.x as int, dx) as i64,
        y: spec_sat_add(pos.y as int, dy) as i64,
        z: pos.z,
    }
}

/// Advances a bullet's position by one frame of its current motion.
pub fn bullet_step(pos: &Vec3, state: &Bullet) -> (r: Vec3)
    requires
        state.wf(),
    ensures
        r == spec_bullet_step(*pos, state.direction as int, state.speed as int),
{
    let s = sin_milli(state.direction);
    let c = cos_milli(state.direction);
    let dx = axis_delta(s, state.speed);
    let dy = axis_delta(c, state.speed);
    Vec3 { x: sat_add(pos.x, dx), y: sat_add(pos.y, dy), z: pos.z }
}

} // verus!
