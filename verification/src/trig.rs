use vstd::arithmetic::div_mod::{lemma_div_is_ordered, lemma_div_multiples_vanish};
use vstd::prelude::*;

verus! {

/// One full turn, in millidegrees.
pub const FULL_TURN_MDEG: i64 = 360_000;

/// Bound on the angle sums the library ever normalizes.
pub const ANGLE_LIMIT: i64 = 1_000_000_000;

/// An angle reduced to `[0, 360000)`: the single normalization
/// convention used everywhere, measured clockwise from the positive
/// y axis.
pub open spec fn spec_normalize_mdeg(a: int) -> int {
    a % 360_000
}

/// Reduces an angle in millidegrees to `[0, 360000)`.
pub fn normalize_mdeg(a: i64) -> (r: i64)
    requires
        -ANGLE_LIMIT <= a <= ANGLE_LIMIT,
    ensures
        r == spec_normalize_mdeg(a as int),
        0 <= r < 360_000,
{
    let m = a % 360_000;
    if m < 0 {
        m + 360_000
    } else {
        m
    }
}

/// The sine of an angle in `[0, 180000]` millidegrees, in
/// milli-units: the classical rational approximation
/// `4t(180 - t) / (40500 - t(180 - t))` evaluated in fixed point.
pub open spec fn spec_half_sin_milli(t: int) -> int {
    let u = t * (180_000 - t);
    (4000 * u) / (40_500_000_000 - u)
}

/// The sine of a normalized angle, in milli-units: the second half
/// turn mirrors the first with opposite sign.
pub open spec fn spec_sin_milli(a: int) -> int {
    if a <= 180_000 {
        spec_half_sin_milli(a)
    } else {
        -spec_half_sin_milli(a - 180_000)
    }
}

/// The cosine of a normalized angle, in milli-units: the sine a
/// quarter turn further along.
pub open spec fn spec_cos_milli(a: int) -> int {
    spec_sin_milli((a + 90_000) % 360_000)
}

/// The rational sine approximation stays within one milli-unit
/// magnitude.
proof fn lemma_half_sin_bounds(t: int)
    requires
        0 <= t <= 180_000,
    ensures
        0 <= spec_half_sin_milli(t) <= 1000,
{
    let u = t * (180_000 - t);
    assert(u == 8_100_000_000 - (t - 90_000) * (t - 90_000) && (t - 90_000) * (t - 90_000) >= 0
        && 0 <= u) by (nonlinear_arith)
        requires
            0 <= t <= 180_000,
            u == t * (180_000 - t),
    ;
    assert(0 <= u <= 8_100_000_000);
    let den = 40_500_000_000 - u;
    assert(den >= 32_400_000_000);
    lemma_div_is_ordered(0, 4000 * u, den);
    assert(4000 * u <= 1000 * den) by (nonlinear_arith)
        requires
            0 <= u <= 8_100_000_000,
            den == 40_500_000_000 - u,
    ;
    lemma_div_is_ordered(4000 * u, 1000 * den, den);
    lemma_div_multiples_vanish(1000, den);
    assert(1000 * den == den * 1000) by (nonlinear_arith);
}

fn half_sin_milli(t: i64) -> (r: i64)
    requires
        0 <= t <= 180_000,
    ensures
        r == spec_half_sin_milli(t as int),
        0 <= r <= 1000,
{
    proof {
        lemma_half_sin_bounds(t as int);
        assert(0 <= (t as int) * (180_000 - t) <= 32_400_000_000) by (nonlinear_arith)
            requires
                0 <= t <= 180_000,
        ;
    }
    let u = t * (180_000 - t);
    (4000 * u) / (40_500_000_000 - u)
}

/// The sine of a normalized angle, in milli-units.
pub fn sin_milli(a: i64) -> (r: i64)
    requires
        0 <= a < 360_000,
    ensures
        r == spec_sin_milli(a as int),
        -1000 <= r <= 1000,
{
    if a <= 180_000 {
        half_sin_milli(a)
    } else {
        -half_sin_milli(a - 180_000)
    }
}

/// The cosine of a normalized angle, in milli-units.
pub fn cos_milli(a: i64) -> (r: i64)
    requires
        0 <= a < 360_000,
    ensures
        r == spec_cos_milli(a as int),
        -1000 <= r <= 1000,
{
    let shifted = (a + 90_000) % 360_000;
    sin_milli(shifted)
}

/// Bound on the coordinate differences an aim computation accepts.
pub const AIM_COORD_LIMIT: i64 = 100_000_000;

/// The arctangent of `num / den` in millidegrees, for a ratio in
/// `[0, 1]`: the rational approximation
/// `x * (45 + (1 - x)(14 + 3.83 x))` evaluated in fixed point.
pub open spec fn spec_atan_milli(num: int, den: int) -> int {
    let m = (num * 1000) / den;
    let c = (3830 * m) / 1000;
    let inner = 45_000 + ((1000 - m) * (14_000 + c)) / 1000;
    (m * inner) / 1000
}

fn atan_milli(num: i64, den: i64) -> (r: i64)
    requires
        0 <= num <= den,
        0 < den <= 2 * AIM_COORD_LIMIT,
    ensures
        r == spec_atan_milli(num as int, den as int),
        0 <= r <= 63_000,
{
    proof {
        lemma_div_is_ordered(0, (num as int) * 1000, den as int);
        assert((num as int) * 1000 <= (den as int) * 1000) by (nonlinear_arith)
            requires
                0 <= num <= den,
        ;
        lemma_div_is_ordered((num as int) * 1000, (den as int) * 1000, den as int);
        lemma_div_multiples_vanish(1000, den as int);
        assert((den as int) * 1000 == 1000 * (den as int)) by (nonlinear_arith);
    }
    let m = (num * 1000) / den;
    proof {
        lemma_div_is_ordered(0, 3830 * (m as int), 1000);
        lemma_div_is_ordered(3830 * (m as int), 3_830_000, 1000);
    }
    let c = (3830 * m) / 1000;
    proof {
        assert(0 <= (1000 - m as int) * (14_000 + c) <= 17_830_000) by (nonlinear_arith)
            requires
                0 <= m <= 1000,
                0 <= c <= 3830,
        ;
        lemma_div_is_ordered(0, (1000 - m as int) * (14_000 + c), 1000);
        lemma_div_is_ordered((1000 - m as int) * (14_000 + c), 17_830_000, 1000);
    }
    let inner = 45_000 + ((1000 - m) * (14_000 + c)) / 1000;
    proof {
        assert(0 <= (m as int) * inner <= 63_000_000) by (nonlinear_arith)
            requires
                0 <= m <= 1000,
                45_000 <= inner <= 63_000,
        ;
        lemma_div_is_ordered(0, (m as int) * inner, 1000);
        lemma_div_is_ordered((m as int) * inner, 63_000_000, 1000);
    }
    (m * inner) / 1000
}

/// The aim angle from a position towards a target, as this library
/// defines it: the clockwise angle from the positive y axis of the
/// difference vector, from the fixed-point arctangent, normalized to
/// `[0, 360000)`.
pub open spec fn spec_aim_direction_mdeg(dx: int, dy: int) -> int {
    let ax = if dx >= 0 {
        dx
    } else {
        -dx
    };
    let ay = if dy >= 0 {
        dy
    } else {
        -dy
    };
    let base = if ax == 0 && ay == 0 {
        0
    } else if ax <= ay {
        spec_atan_milli(ax, ay)
    } else {
        90_000 - spec_atan_milli(ay, ax)
    };
    let raw = if dx >= 0 && dy >= 0 {
        base
    } else if dx >= 0 {
        180_000 - base
    } else if dy < 0 {
        180_000 + base
    } else {
        360_000 - base
    };
    raw % 360_000
}

/// Computes the aim angle towards a target offset by `(dx, dy)`.
pub fn aim_direction_mdeg(dx: i64, dy: i64) -> (r: i64)
    requires
        -AIM_COORD_LIMIT <= dx <= AIM_COORD_LIMIT,
        -AIM_COORD_LIMIT <= dy <= AIM_COORD_LIMIT,
    ensures
        r == spec_aim_direction_mdeg(dx as int, dy as int),
        0 <= r < 360_000,
{
    let ax = if dx >= 0 {
        dx
    } else {
        -dx
    };
    let ay = if dy >= 0 {
        dy
    } else {
        -dy
    };
    let base = if ax == 0 && ay == 0 {
        0
    } else if ax <= ay {
        atan_milli(ax, ay)
    } else {
        90_000 - atan_milli(ay, ax)
    };
    let raw = if dx >= 0 && dy >= 0 {
        base
    } else if dx >= 0 {
        180_000 - base
    } else if dy < 0 {
        180_000 + base
    } else {
        360_000 - base
    };
    raw % 360_000
}

} // verus!
