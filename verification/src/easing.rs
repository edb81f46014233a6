use crate::play_area::COORD_LIMIT;
use crate::vec3::Vec3;
use vstd::arithmetic::div_mod::{lemma_div_is_ordered, lemma_div_multiples_vanish};
use vstd::prelude::*;

verus! {

/// Longest duration, in frames, an interpolated move may take; keeps
/// the eased products inside the integer range.
pub const DURATION_LIMIT: i64 = 100_000;

/// Linear interpolation on one axis: at time `t` of `d`, the value
/// has moved `c * t / d` away from `b`, the division rounding the
/// magnitude down.
pub open spec fn spec_ease_linear(t: int, b: int, c: int, d: int) -> int {
    let mag = if c >= 0 {
        c
    } else {
        -c
    };
    let q = (mag * t) / d;
    if c >= 0 {
        b + q
    } else {
        b - q
    }
}

/// Ease-in-out interpolation on one axis: a quadratic ease away from
/// `b` during the first half, the mirrored quadratic into `b + c`
/// during the second, the divisions rounding the magnitude down.
pub open spec fn spec_ease_in_out(t: int, b: int, c: int, d: int) -> int {
    let mag = if c >= 0 {
        c
    } else {
        -c
    };
    if 2 * t < d {
        let q = (2 * mag * t * t) / (d * d);
        if c >= 0 {
            b + q
        } else {
            b - q
        }
    } else {
        let q = (2 * mag * (d - t) * (d - t)) / (d * d);
        if c >= 0 {
            b + c - q
        } else {
            b + c + q
        }
    }
}

/// The eased offset never overshoots: the magnitude moved is at most
/// the magnitude of the full change.
proof fn lemma_quad_part_bounded(mag: int, w: int, d: int)
    requires
        0 <= mag,
        0 < d,
        0 <= 2 * w <= d,
    ensures
        0 <= (2 * mag * w * w) / (d * d) <= mag,
{
    assert(4 * w * w <= d * d) by (nonlinear_arith)
        requires
            0 <= 2 * w <= d,
    ;
    assert(2 * mag * w * w * 2 <= mag * (d * d)) by (nonlinear_arith)
        requires
            0 <= mag,
            4 * w * w <= d * d,
    ;
    assert(0 <= 2 * mag * w * w) by (nonlinear_arith)
        requires
            0 <= mag,
    ;
    assert(d * d > 0) by (nonlinear_arith)
        requires
            0 < d,
    ;
    lemma_div_is_ordered(0, 2 * mag * w * w, d * d);
    lemma_div_is_ordered(2 * mag * w * w, mag * (d * d), d * d);
    lemma_div_multiples_vanish(mag, d * d);
    assert(mag * (d * d) == (d * d) * mag) by (nonlinear_arith);
}

/// The quadratic offset `2 * mag * w * w / (d * d)` of the easing,
/// computed without overflow.
fn quad_offset(mag: i64, w: i64, d: i64) -> (q: i64)
    requires
        0 <= mag <= 2 * COORD_LIMIT,
        0 < d <= DURATION_LIMIT,
        0 <= 2 * w <= d,
    ensures
        q == (2 * mag * w * w) / (d * d),
        0 <= q <= mag,
{
    proof {
        lemma_quad_part_bounded(mag as int, w as int, d as int);
        assert(0 <= 2 * (mag as int) * w <= 4_000_000_000_000) by (nonlinear_arith)
            requires
                0 <= mag <= 20_000_000,
                0 <= w <= 100_000,
        ;
        assert(0 <= 2 * (mag as int) * w * w <= 400_000_000_000_000_000) by (nonlinear_arith)
            requires
                0 <= 2 * (mag as int) * w <= 4_000_000_000_000,
                0 <= w <= 100_000,
        ;
        assert(0 < (d as int) * d <= 10_000_000_000) by (nonlinear_arith)
            requires
                0 < d <= 100_000,
        ;
    }
    (2 * mag * w * w) / (d * d)
}

/// Eased ease-in-out interpolation at time `t` of a move lasting `d`
/// frames, from value `b` by a total change of `c`.
pub fn easing_ease_in_out_interpolation(t: i64, b: i64, c: i64, d: i64) -> (r: i64)
    requires
        0 <= t <= d,
        0 < d <= DURATION_LIMIT,
        -COORD_LIMIT <= b <= COORD_LIMIT,
        -2 * COORD_LIMIT <= c <= 2 * COORD_LIMIT,
    ensures
        r == spec_ease_in_out(t as int, b as int, c as int, d as int),
        c >= 0 ==> b <= r <= b + c,
        c < 0 ==> b + c <= r <= b,
{
    let mag: i64 = if c >= 0 {
        c
    } else {
        -c
    };
    if 2 * t < d {
        let q = quad_offset(mag, t, d);
        if c >= 0 {
            b + q
        } else {
            b - q
        }
    } else {
        let q = quad_offset(mag, d - t, d);
        if c >= 0 {
            b + c - q
        } else {
            b + c + q
        }
    }
}

/// The linear offset never overshoots either.
proof fn lemma_linear_part_bounded(mag: int, t: int, d: int)
    requires
        0 <= mag,
        0 < d,
        0 <= t <= d,
    ensures
        0 <= (mag * t) / d <= mag,
{
    assert(0 <= mag * t <= mag * d) by (nonlinear_arith)
        requires
            0 <= mag,
            0 <= t <= d,
    ;
    lemma_div_is_ordered(0, mag * t, d);
    lemma_div_is_ordered(mag * t, mag * d, d);
    lemma_div_multiples_vanish(mag, d);
    assert(mag * d == d * mag) by (nonlinear_arith);
}

/// Linear interpolation at time `t` of a move lasting `d` frames,
/// from value `b` by a total change of `c`.
pub fn easing_linear_interpolation(t: i64, b: i64, c: i64, d: i64) -> (r: i64)
    requires
        0 <= t <= d,
        0 < d <= DURATION_LIMIT,
        -COORD_LIMIT <= b <= COORD_LIMIT,
        -2 * COORD_LIMIT <= c <= 2 * COORD_LIMIT,
    ensures
        r == spec_ease_linear(t as int, b as int, c as int, d as int),
        c >= 0 ==> b <= r <= b + c,
        c < 0 ==> b + c <= r <= b,
{
    let mag: i64 = if c >= 0 {
        c
    } else {
        -c
    };
    proof {
        lemma_linear_part_bounded(mag as int, t as int, d as int);
        assert(0 <= (mag as int) * t <= 2_000_000_000_000) by (nonlinear_arith)
            requires
                0 <= mag <= 20_000_000,
                0 <= t <= 100_000,
        ;
    }
    let q: i64 = (mag * t) / d;
    if c >= 0 {
        b + q
    } else {
        b - q
    }
}

/// Componentwise ease-in-out interpolation of a position, `t` frames
/// into a move of `d` frames from `from` towards `to`.
pub open spec fn spec_ease_vec3(t: int, from: Vec3, to: Vec3, d: int) -> Vec3 {
    Vec3 {
        x: spec_ease_in_out(t, from.x as int, to.x - from.x, d) as i64,
        y: spec_ease_in_out(t, from.y as int, to.y - from.y, d) as i64,
        z: spec_ease_in_out(t, from.z as int, to.z - from.z, d) as i64,
    }
}

/// Whether every component of a position lies within the coordinate
/// bound.
pub open spec fn vec3_in_bounds(v: Vec3) -> bool {
    &&& -COORD_LIMIT <= v.x <= COORD_LIMIT
    &&& -COORD_LIMIT <= v.y <= COORD_LIMIT
    &&& -COORD_LIMIT <= v.z <= COORD_LIMIT
}

/// Applies the ease-in-out interpolation to each component of a
/// position; the result stays inside the box the endpoints span.
pub fn easing_vec3_ease_in_out_interpolation(t: i64, from: &Vec3, to: &Vec3, d: i64) -> (r: Vec3)
    requires
        0 <= t <= d,
        0 < d <= DURATION_LIMIT,
        vec3_in_bounds(*from),
        vec3_in_bounds(*to),
    ensures
        r == spec_ease_vec3(t as int, *from, *to, d as int),
        vec3_in_bounds(r),
{
    Vec3 {
        x: easing_ease_in_out_interpolation(t, from.x, to.x - from.x, d),
        y: easing_ease_in_out_interpolation(t, from.y, to.y - from.y, d),
        z: easing_ease_in_out_interpolation(t, from.z, to.z - from.z, d),
    }
}

/// Componentwise linear interpolation of a position, `t` frames into
/// a move of `d` frames from `from` towards `to`.
pub open spec fn spec_ease_linear_vec3(t: int, from: Vec3, to: Vec3, d: int) -> Vec3 {
    Vec3 {
        x: spec_ease_linear(t, from.x as int, to.x - from.x, d) as i64,
        y: spec_ease_linear(t, from.y as int, to.y - from.y, d) as i64,
        z: spec_ease_linear(t, from.z as int, to.z - from.z, d) as i64,
    }
}

/// Applies the linear interpolation to each component of a position.
pub fn easing_vec3_linear_interpolation(t: i64, from: &Vec3, to: &Vec3, d: i64) -> (r: Vec3)
    requires
        0 <= t <= d,
        0 < d <= DURATION_LIMIT,
        vec3_in_bounds(*from),
        vec3_in_bounds(*to),
    ensures
        r == spec_ease_linear_vec3(t as int, *from, *to, d as int),
        vec3_in_bounds(r),
{
    Vec3 {
        x: easing_linear_interpolation(t, from.x, to.x - from.x, d),
        y: easing_linear_interpolation(t, from.y, to.y - from.y, d),
        z: easing_linear_interpolation(t, from.z, to.z - from.z, d),
    }
}

} // verus!
