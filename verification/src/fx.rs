//! Q16.16 fixed-point arithmetic: the scale constant, signed
//! multiply-then-rescale helpers, and the shared numeric limits of the
//! renderer.

use vstd::prelude::*;

verus! {

/// One whole unit in Q16.16 fixed point.
pub const SCALE: u64 = 65536;

/// Half of a unit, used to round to the nearest fixed-point value.
pub const HALF_SCALE: u64 = 32768;

/// Stand-in for an infinite per-axis step distance: rays with a zero
/// component on an axis never cross that axis's grid lines, so their
/// step distance is this sentinel instead of a division blow-up.
pub const SENTINEL: u64 = 1152921504606846976;

/// Largest per-axis step distance a non-degenerate ray component can
/// produce: `SCALE * SCALE / 1`.
pub const DELTA_MAX: u64 = 4294967296;

/// Bound on the magnitude of a direction or view-plane component (4.0).
pub const NORM_MAX: i64 = 262144;

/// Bound on the magnitude of a ray component: a direction component plus
/// a scaled view-plane component, each at most `NORM_MAX`.
pub const RAY_ABS_MAX: i64 = 524288;

/// Smallest per-axis step distance a ray component within `RAY_ABS_MAX`
/// can produce: `DELTA_MAX / RAY_ABS_MAX`.
pub const DELTA_MIN: u64 = 8192;

/// Bound on the squared Euclidean norm of the direction and view-plane
/// vectors: `NORM_MAX * NORM_MAX`.
pub const NORM_SQ_MAX: i64 = 68719476736;

/// `cos(0.007)` in Q16.16, the fixed per-frame rotation angle.
pub const ROT_COS: i64 = 65534;

/// `sin(0.007)` in Q16.16.
pub const ROT_SIN: i64 = 459;

/// Largest supported tile-map side length, in tiles.
pub const MAX_MAP_DIM: usize = 1024;

/// Largest supported output dimension, in pixels.
pub const MAX_SCREEN_DIM: usize = 16384;

/// Absolute value over the mathematical integers.
pub open spec fn spec_abs(a: int) -> int {
    if a >= 0 {
        a
    } else {
        -a
    }
}

/// The Q16.16 product of `a` and `b`: `a * b / SCALE`, rounded toward zero.
pub open spec fn spec_mul_scale(a: int, b: int) -> int {
    if a * b >= 0 {
        (a * b) / (SCALE as int)
    } else {
        -((-(a * b)) / (SCALE as int))
    }
}

/// `p / SCALE` rounded to the nearest integer, ties away from zero.
pub open spec fn spec_round_scale(p: int) -> int {
    if p >= 0 {
        (p + HALF_SCALE) / (SCALE as int)
    } else {
        -((-p + HALF_SCALE) / (SCALE as int))
    }
}

/// Magnitude of a signed fixed-point value as an unsigned one.
pub fn abs_i64(a: i64) -> (r: u64)
    requires
        a > i64::MIN,
    ensures
        r == spec_abs(a as int),
{
    if a >= 0 {
        a as u64
    } else {
        (-a) as u64
    }
}

/// Multiplies two fixed-point values and rescales, truncating toward zero.
pub fn mul_scale(a: i64, b: i64) -> (r: i64)
    requires
        spec_abs(a as int) <= 4194304,
        spec_abs(b as int) <= 4194304,
    ensures
        r == spec_mul_scale(a as int, b as int),
        spec_abs(r as int) * (SCALE as int) <= spec_abs((a as int) * (b as int)),
{
    let aa: u64 = abs_i64(a);
    let bb: u64 = abs_i64(b);
    proof {
        assert(aa * bb == spec_abs((a as int) * (b as int)) && aa * bb <= 4194304 * 4194304)
            by (nonlinear_arith)
            requires
                aa == spec_abs(a as int),
                bb == spec_abs(b as int),
                aa <= 4194304,
                bb <= 4194304,
        ;
    }
    let p: u64 = aa * bb;
    let q: u64 = p / SCALE;
    let neg: bool = (a < 0) != (b < 0);
    proof {
        assert(((a as int) * (b as int) >= 0 && !(a == 0 || b == 0) ==> ((a < 0) == (b < 0)))
            && ((a as int) * (b as int) < 0 ==> ((a < 0) != (b < 0)))) by (nonlinear_arith);
        assert(q * (SCALE as int) <= p) by (nonlinear_arith)
            requires
                q == (p as int) / (SCALE as int),
                p >= 0,
        ;
    }
    if neg {
        -(q as i64)
    } else {
        q as i64
    }
}

/// Rescales a double-width fixed-point product, rounding to the nearest
/// value, ties away from zero.
pub fn round_scale(p: i64) -> (r: i64)
    requires
        spec_abs(p as int) <= 17592186044416,
    ensures
        r == spec_round_scale(p as int),
{
    if p >= 0 {
        let q: u64 = ((p as u64) + HALF_SCALE) / SCALE;
        q as i64
    } else {
        let q: u64 = (((-p) as u64) + HALF_SCALE) / SCALE;
        -(q as i64)
    }
}

} // verus!
