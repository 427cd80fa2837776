//! The viewer state: a position in continuous map coordinates, a facing
//! direction, and a view-plane vector, all in Q16.16 fixed point, together
//! with the fixed-angle rotation applied between frames.

use vstd::prelude::*;
use crate::fx::{
    round_scale, spec_abs, spec_round_scale, HALF_SCALE, NORM_MAX, NORM_SQ_MAX, ROT_COS, ROT_SIN,
    SCALE,
};
use crate::tilemap::TileMap;

verus! {

/// The viewer: position, facing direction and view plane, in Q16.16.
/// The view plane is perpendicular to the facing direction and its length
/// encodes the field of view; neither fact is needed for correctness, so
/// well-formedness only bounds the vectors and keeps the position inside
/// the map's border ring.
pub struct Camera {
    pub pos_x: u64,
    pub pos_y: u64,
    pub dir_x: i64,
    pub dir_y: i64,
    pub plane_x: i64,
    pub plane_y: i64,
}

/// The x component of a vector rotated by the fixed angle, rescaled to
/// Q16.16 with round-to-nearest.
pub open spec fn spec_rot_x(x: int, y: int) -> int {
    spec_round_scale(x * ROT_COS - y * ROT_SIN)
}

/// The y component of a vector rotated by the fixed angle.
pub open spec fn spec_rot_y(x: int, y: int) -> int {
    spec_round_scale(x * ROT_SIN + y * ROT_COS)
}

impl Camera {
    /// Direction and view-plane vectors have bounded squared norm, which
    /// bounds every ray component and so every step-distance divisor.
    pub open spec fn vectors_wf(self) -> bool {
        &&& self.dir_x * self.dir_x + self.dir_y * self.dir_y <= NORM_SQ_MAX
        &&& self.plane_x * self.plane_x + self.plane_y * self.plane_y <= NORM_SQ_MAX
    }

    /// The position lies strictly inside the map's solid border ring:
    /// the camera's tile is never a border tile.
    pub open spec fn pos_wf(self, map: TileMap) -> bool {
        &&& SCALE <= self.pos_x < (map.width - 1) * SCALE
        &&& SCALE <= self.pos_y < (map.height - 1) * SCALE
    }

    pub open spec fn wf(self, map: TileMap) -> bool {
        self.vectors_wf() && self.pos_wf(map)
    }

    pub fn new(pos_x: u64, pos_y: u64, dir_x: i64, dir_y: i64, plane_x: i64, plane_y: i64) -> (c:
        Camera)
        ensures
            c.pos_x == pos_x,
            c.pos_y == pos_y,
            c.dir_x == dir_x,
            c.dir_y == dir_y,
            c.plane_x == plane_x,
            c.plane_y == plane_y,
    {
        Camera { pos_x, pos_y, dir_x, dir_y, plane_x, plane_y }
    }

    /// Decides well-formedness with respect to `map` at run time.
    pub fn is_valid_for(&self, map: &TileMap) -> (b: bool)
        requires
            map.wf(),
        ensures
            b == self.wf(*map),
    {
        if self.pos_x < SCALE || self.pos_x >= (map.width as u64 - 1) * SCALE {
            return false;
        }
        if self.pos_y < SCALE || self.pos_y >= (map.height as u64 - 1) * SCALE {
            return false;
        }
        if self.dir_x > NORM_MAX || self.dir_x < -NORM_MAX || self.dir_y > NORM_MAX
            || self.dir_y < -NORM_MAX {
            proof {
                assert(self.dir_x * self.dir_x + self.dir_y * self.dir_y > NORM_SQ_MAX)
                    by (nonlinear_arith)
                    requires
                        self.dir_x > NORM_MAX || self.dir_x < -NORM_MAX || self.dir_y > NORM_MAX
                            || self.dir_y < -NORM_MAX,
                        NORM_MAX == 262144,
                        NORM_SQ_MAX == 68719476736,
                ;
            }
            return false;
        }
        if self.plane_x > NORM_MAX || self.plane_x < -NORM_MAX || self.plane_y > NORM_MAX
            || self.plane_y < -NORM_MAX {
            proof {
                assert(self.plane_x * self.plane_x + self.plane_y * self.plane_y > NORM_SQ_MAX)
                    by (nonlinear_arith)
                    requires
                        self.plane_x > NORM_MAX || self.plane_x < -NORM_MAX || self.plane_y
                            > NORM_MAX || self.plane_y < -NORM_MAX,
                        NORM_MAX == 262144,
                        NORM_SQ_MAX == 68719476736,
                ;
            }
            return false;
        }
        proof {
            lemma_sq_in_box(self.dir_x as int, NORM_MAX as int);
            lemma_sq_in_box(self.dir_y as int, NORM_MAX as int);
            lemma_sq_in_box(self.plane_x as int, NORM_MAX as int);
            lemma_sq_in_box(self.plane_y as int, NORM_MAX as int);
        }
        self.dir_x * self.dir_x + self.dir_y * self.dir_y <= NORM_SQ_MAX
            && self.plane_x * self.plane_x + self.plane_y * self.plane_y <= NORM_SQ_MAX
    }

    /// Rotates the facing direction and the view plane by the fixed angle
    /// whose cosine and sine are `ROT_COS` and `ROT_SIN`, leaving the
    /// position untouched. Rotation preserves the squared-norm bound.
    pub fn rotate(&mut self)
        requires
            old(self).vectors_wf(),
        ensures
            final(self).pos_x == old(self).pos_x,
            final(self).pos_y == old(self).pos_y,
            final(self).dir_x == spec_rot_x(old(self).dir_x as int, old(self).dir_y as int),
            final(self).dir_y == spec_rot_y(old(self).dir_x as int, old(self).dir_y as int),
            final(self).plane_x == spec_rot_x(old(self).plane_x as int, old(self).plane_y as int),
            final(self).plane_y == spec_rot_y(old(self).plane_x as int, old(self).plane_y as int),
            final(self).vectors_wf(),
    {
        proof {
            lemma_component_in_norm_box(self.dir_x as int, self.dir_y as int);
            lemma_component_in_norm_box(self.plane_x as int, self.plane_y as int);
            lemma_rotation_keeps_norm_bound(self.dir_x as int, self.dir_y as int);
            lemma_rotation_keeps_norm_bound(self.plane_x as int, self.plane_y as int);
        }
        let ndx: i64 = round_scale(self.dir_x * ROT_COS - self.dir_y * ROT_SIN);
        let ndy: i64 = round_scale(self.dir_x * ROT_SIN + self.dir_y * ROT_COS);
        let npx: i64 = round_scale(self.plane_x * ROT_COS - self.plane_y * ROT_SIN);
        let npy: i64 = round_scale(self.plane_x * ROT_SIN + self.plane_y * ROT_COS);
        self.dir_x = ndx;
        self.dir_y = ndy;
        self.plane_x = npx;
        self.plane_y = npy;
    }
}

/// A value in `[-m, m]` has a square in `[0, m * m]`.
pub proof fn lemma_sq_in_box(x: int, m: int)
    requires
        -m <= x <= m,
    ensures
        0 <= x * x <= m * m,
{
    assert(0 <= x * x <= m * m) by (nonlinear_arith)
        requires
            -m <= x <= m,
    ;
}

/// A vector of bounded squared norm has components bounded by `NORM_MAX`.
pub proof fn lemma_component_in_norm_box(x: int, y: int)
    requires
        x * x + y * y <= NORM_SQ_MAX,
    ensures
        -NORM_MAX <= x <= NORM_MAX,
        -NORM_MAX <= y <= NORM_MAX,
{
    assert(-NORM_MAX <= x <= NORM_MAX && -NORM_MAX <= y <= NORM_MAX) by (nonlinear_arith)
        requires
            x * x + y * y <= NORM_SQ_MAX,
            NORM_SQ_MAX == 68719476736,
            NORM_MAX == 262144,
    ;
}

/// The fixed-angle rotation is norm-preserving at full precision: before
/// rescaling, the squared norm of the rotated vector is exactly the
/// original squared norm times `c^2 + s^2`.
pub proof fn lemma_rotation_norm_identity(x: int, y: int, c: int, s: int)
    ensures
        (x * c - y * s) * (x * c - y * s) + (x * s + y * c) * (x * s + y * c) == (x * x + y * y) * (
        c * c + s * s),
{
    let a = x * c;
    let b = y * s;
    let d = x * s;
    let e = y * c;
    assert((a - b) * (a - b) == a * a - 2 * (a * b) + b * b) by (nonlinear_arith);
    assert((d + e) * (d + e) == d * d + 2 * (d * e) + e * e) by (nonlinear_arith);
    assert(a * b == d * e) by (nonlinear_arith)
        requires
            a == x * c,
            b == y * s,
            d == x * s,
            e == y * c,
    ;
    assert(a * a == (x * x) * (c * c) && b * b == (y * y) * (s * s) && d * d == (x * x) * (s * s)
        && e * e == (y * y) * (c * c)) by (nonlinear_arith)
        requires
            a == x * c,
            b == y * s,
            d == x * s,
            e == y * c,
    ;
    assert((x * x + y * y) * (c * c + s * s) == (x * x) * (c * c) + (x * x) * (s * s) + (y * y) * (
    c * c) + (y * y) * (s * s)) by (nonlinear_arith);
}

/// One rotation step preserves the squared norm up to rounding: the
/// rescaled squared norm of the rotated vector differs from the exact
/// value `(x^2 + y^2) * (ROT_COS^2 + ROT_SIN^2)` by at most the rounding
/// slack `SCALE * (|px| + |py|) + SCALE^2 / 2`, where `px` and `py` are
/// the pre-rescale rotated components.
pub proof fn lemma_rotation_norm_step_bounds(x: int, y: int)
    requires
        x * x + y * y <= NORM_SQ_MAX,
    ensures
        (spec_rot_x(x, y) * spec_rot_x(x, y) + spec_rot_y(x, y) * spec_rot_y(x, y)) * 4294967296
            <= (x * x + y * y) * 4294915837 + 65536 * (spec_abs(x * ROT_COS - y * ROT_SIN)
            + spec_abs(x * ROT_SIN + y * ROT_COS)) + 2147483648,
        (spec_rot_x(x, y) * spec_rot_x(x, y) + spec_rot_y(x, y) * spec_rot_y(x, y)) * 4294967296
            >= (x * x + y * y) * 4294915837 - 65536 * (spec_abs(x * ROT_COS - y * ROT_SIN)
            + spec_abs(x * ROT_SIN + y * ROT_COS)),
{
    let px = x * ROT_COS - y * ROT_SIN;
    let py = x * ROT_SIN + y * ROT_COS;
    let n = x * x + y * y;
    lemma_rotation_norm_identity(x, y, ROT_COS as int, ROT_SIN as int);
    assert(px * px + py * py == n * 4294915837);
    let a = spec_abs(px);
    let b = spec_abs(py);
    assert(a >= 0 && b >= 0 && a * a == px * px && b * b == py * py) by (nonlinear_arith)
        requires
            a == spec_abs(px),
            b == spec_abs(py),
    ;
    let rx = spec_rot_x(x, y);
    let ry = spec_rot_y(x, y);
    lemma_round_scale_sq_bound(px);
    lemma_round_scale_sq_bound(py);
    assert((rx * rx + ry * ry) * 4294967296 <= n * 4294915837 + 65536 * (a + b) + 2147483648)
        by (nonlinear_arith)
        requires
            rx * rx * 65536 * 65536 <= (a + 32768) * (a + 32768),
            ry * ry * 65536 * 65536 <= (b + 32768) * (b + 32768),
            a * a + b * b == n * 4294915837,
    ;
    lemma_round_scale_sq_lower(px);
    lemma_round_scale_sq_lower(py);
    assert((rx * rx + ry * ry) * 4294967296 >= n * 4294915837 - 65536 * (a + b))
        by (nonlinear_arith)
        requires
            rx * rx * 65536 * 65536 >= (a - 32768) * (a - 32768) - 1073741824,
            ry * ry * 65536 * 65536 >= (b - 32768) * (b - 32768) - 1073741824,
            a * a + b * b == n * 4294915837,
    ;
}

/// Rounding the rescaled components keeps the squared norm within the
/// well-formedness bound: `ROT_COS^2 + ROT_SIN^2` falls short of `SCALE^2`
/// by more than rounding can add back.
proof fn lemma_rotation_keeps_norm_bound(x: int, y: int)
    requires
        x * x + y * y <= NORM_SQ_MAX,
    ensures
        spec_rot_x(x, y) * spec_rot_x(x, y) + spec_rot_y(x, y) * spec_rot_y(x, y) <= NORM_SQ_MAX,
{
    let px = x * ROT_COS - y * ROT_SIN;
    let py = x * ROT_SIN + y * ROT_COS;
    let n = x * x + y * y;
    lemma_rotation_norm_identity(x, y, ROT_COS as int, ROT_SIN as int);
    assert(px * px + py * py == n * 4294915837);
    let a = spec_abs(px);
    let b = spec_abs(py);
    assert(a >= 0 && b >= 0 && a * a == px * px && b * b == py * py && n >= 0)
        by (nonlinear_arith)
        requires
            a == spec_abs(px),
            b == spec_abs(py),
            n == x * x + y * y,
    ;
    let rx = spec_rot_x(x, y);
    let ry = spec_rot_y(x, y);
    lemma_round_scale_sq_bound(px);
    lemma_round_scale_sq_bound(py);
    // (a + b)^2 <= 2 * (a^2 + b^2) <= 2 * NORM_SQ_MAX * 4294915837 < 24300000000^2.
    assert(a + b <= 24300000000) by (nonlinear_arith)
        requires
            a * a + b * b == n * 4294915837,
            a >= 0,
            b >= 0,
            0 <= n <= 68719476736,
    ;
    // Expand the two square bounds and collect terms.
    assert((rx * rx + ry * ry) * 4294967296 <= n * 4294915837 + 65536 * (a + b) + 2147483648)
        by (nonlinear_arith)
        requires
            rx * rx * 65536 * 65536 <= (a + 32768) * (a + 32768),
            ry * ry * 65536 * 65536 <= (b + 32768) * (b + 32768),
            a * a + b * b == n * 4294915837,
    ;
    // The norm shrink `NORM_SQ_MAX * (SCALE^2 - 4294915837)` dominates the
    // largest possible rounding growth.
    assert(n * 4294915837 + 65536 * (a + b) + 2147483648 <= 68719476736 * 4294967296)
        by (nonlinear_arith)
        requires
            0 <= n <= 68719476736,
            a + b <= 24300000000,
            a >= 0,
            b >= 0,
    ;
    assert(rx * rx + ry * ry <= NORM_SQ_MAX);
}

/// The square of a rescaled rounding is bounded by the square of the
/// magnitude plus half a unit.
proof fn lemma_round_scale_sq_bound(p: int)
    ensures
        spec_round_scale(p) * spec_round_scale(p) * 65536 * 65536 <= (spec_abs(p) + 32768) * (
        spec_abs(p) + 32768),
{
    let a = spec_abs(p);
    let q = (a + HALF_SCALE) / (SCALE as int);
    if p >= 0 {
        assert(spec_round_scale(p) == q);
    } else {
        assert(spec_round_scale(p) == -q);
    }
    lemma_div_sq_bound(a + HALF_SCALE, SCALE as int);
    assert(spec_round_scale(p) * spec_round_scale(p) == q * q) by (nonlinear_arith)
        requires
            spec_round_scale(p) == q || spec_round_scale(p) == -q,
    ;
    assert(q * q * 65536 * 65536 <= (a + 32768) * (a + 32768));
}

/// The square of a rescaled rounding is bounded below by the square of
/// the magnitude less half a unit, up to one more half-unit square.
proof fn lemma_round_scale_sq_lower(p: int)
    ensures
        spec_round_scale(p) * spec_round_scale(p) * 65536 * 65536 >= (spec_abs(p) - 32768) * (
        spec_abs(p) - 32768) - 1073741824,
{
    let a = spec_abs(p);
    let q = (a + HALF_SCALE) / (SCALE as int);
    if p >= 0 {
        assert(spec_round_scale(p) == q);
    } else {
        assert(spec_round_scale(p) == -q);
    }
    assert(a >= 0) by (nonlinear_arith)
        requires
            a == spec_abs(p),
    ;
    assert(q * 65536 >= a - 32768 + 1 && q >= 0) by (nonlinear_arith)
        requires
            q == (a + 32768) / 65536,
            a >= 0,
    ;
    assert(q * q * 65536 * 65536 >= (a - 32768) * (a - 32768) - 1073741824) by (nonlinear_arith)
        requires
            q * 65536 >= a - 32768 + 1,
            q >= 0,
            a >= 0,
    ;
    assert(spec_round_scale(p) * spec_round_scale(p) == q * q) by (nonlinear_arith)
        requires
            spec_round_scale(p) == q || spec_round_scale(p) == -q,
    ;
}

/// For nonnegative `u` and positive `d`, `(u / d)^2 * d^2 <= u^2`.
proof fn lemma_div_sq_bound(u: int, d: int)
    requires
        u >= 0,
        d > 0,
    ensures
        (u / d) * (u / d) * d * d <= u * u,
{
    let q = u / d;
    assert(q >= 0 && q * d <= u) by (nonlinear_arith)
        requires
            q == u / d,
            u >= 0,
            d > 0,
    ;
    assert(q * q * d * d <= u * u) by (nonlinear_arith)
        requires
            q >= 0,
            d > 0,
            q * d <= u,
            u >= 0,
    ;
}

} // verus!
