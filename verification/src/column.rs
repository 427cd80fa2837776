//! The column rasterizer: turns one ray hit into the pixels of one screen
//! column, with a ceiling fill above the wall strip, a floor fill below
//! it, and orientation shading on walls hit across a y grid line.

use vstd::prelude::*;
use crate::fx::{MAX_SCREEN_DIM, SCALE};
use crate::raycast::{Hit, HitModel};

verus! {

/// An RGBA color, 8 bits per channel.
#[derive(PartialEq, Eq, Structural, Clone, Copy, Debug)]
pub struct Color {
    pub r: u8,
    pub g: u8,
    pub b: u8,
    pub a: u8,
}

/// The fixed ceiling fill, slightly darker than the floor.
pub open spec fn spec_ceiling_color() -> Color {
    Color { r: 0x20, g: 0x20, b: 0x20, a: 0xFF }
}

/// The fixed floor fill.
pub open spec fn spec_floor_color() -> Color {
    Color { r: 0x40, g: 0x40, b: 0x40, a: 0xFF }
}

/// The base color of a wall material: 1 is blue, 2 green, 3 red, and any
/// other solid material the loud magenta fallback that makes bad map data
/// visible instead of silently miscolored.
pub open spec fn spec_base_color(m: int) -> Color {
    if m == 1 {
        Color { r: 0, g: 0, b: 255, a: 255 }
    } else if m == 2 {
        Color { r: 0, g: 255, b: 0, a: 255 }
    } else if m == 3 {
        Color { r: 255, g: 0, b: 0, a: 255 }
    } else {
        Color { r: 255, g: 0, b: 255, a: 255 }
    }
}

/// One channel darkened by the fixed shading factor `0xC0 / 0x100`.
pub open spec fn spec_shade_channel(c: u8) -> u8 {
    ((c * 0xC0) / 0x100) as u8
}

/// The color a wall strip is drawn in: the material's base color,
/// uniformly darkened on all three color channels when the hit crossed a
/// y grid line, to tell the two wall orientations apart.
pub open spec fn spec_wall_color(m: int, side: int) -> Color {
    let base = spec_base_color(m);
    if side == 1 {
        Color {
            r: spec_shade_channel(base.r),
            g: spec_shade_channel(base.g),
            b: spec_shade_channel(base.b),
            a: 255,
        }
    } else {
        base
    }
}

/// Projected height of the wall strip in rows: `h / perp`, with a
/// degenerate (zero) distance projecting to a full-height strip.
pub open spec fn spec_line_height(h: int, perp: int) -> int {
    if perp <= 0 {
        h * (SCALE as int)
    } else {
        (h * (SCALE as int)) / perp
    }
}

/// First row of the wall strip: the strip is centered vertically and
/// clipped to the frame.
pub open spec fn spec_y0(h: int, perp: int) -> int {
    let half = spec_line_height(h, perp) / 2;
    if half >= h / 2 {
        0
    } else {
        h / 2 - half
    }
}

/// First row below the wall strip, at most `h - 1`.
pub open spec fn spec_y1(h: int, perp: int) -> int {
    let half = spec_line_height(h, perp) / 2;
    if h / 2 + half < h - 1 {
        h / 2 + half
    } else {
        h - 1
    }
}

/// The color of row `y` in the column that `hm` describes: ceiling above
/// the strip, wall inside it, floor below it.
pub open spec fn spec_column_color(hm: HitModel, h: int, y: int) -> Color {
    if y < spec_y0(h, hm.perp) {
        spec_ceiling_color()
    } else if y < spec_y1(h, hm.perp) {
        spec_wall_color(hm.material, hm.side)
    } else {
        spec_floor_color()
    }
}

/// Channel `c` of a color, in the byte order R, G, B, A.
pub open spec fn spec_channel(col: Color, c: int) -> u8 {
    if c == 0 {
        col.r
    } else if c == 1 {
        col.g
    } else if c == 2 {
        col.b
    } else {
        col.a
    }
}

/// Channel `c` of the pixel at row `y` of the column that `hm` describes.
pub open spec fn spec_column_byte(hm: HitModel, h: int, y: int, c: int) -> u8 {
    spec_channel(spec_column_color(hm, h, y), c)
}

/// Flat index of channel `c` of pixel `(x, y)` in a `w`-wide frame:
/// row-major pixels, four bytes each.
pub open spec fn spec_byte_index(w: int, x: int, y: int, c: int) -> int {
    (y * w + x) * 4 + c
}

/// Whether flat byte index `i` belongs to screen column `x`.
pub open spec fn spec_in_column(i: int, w: int, x: int) -> bool {
    (i / 4) % w == x
}

/// The frame bytes after drawing column `x` from hit `hm` over `s`:
/// every byte of column `x` holds its row's color, every other byte is
/// untouched.
pub open spec fn spec_draw_column(s: Seq<u8>, w: int, h: int, x: int, hm: HitModel) -> Seq<u8> {
    Seq::new(
        s.len(),
        |i: int|
            if spec_in_column(i, w, x) {
                spec_column_byte(hm, h, (i / 4) / w, i % 4)
            } else {
                s[i]
            },
    )
}

/// Splits a flat byte index into its row, column and channel.
pub proof fn lemma_byte_index_reconstruction(w: int, i: int)
    requires
        w >= 1,
        i >= 0,
    ensures
        0 <= i % 4 < 4,
        0 <= (i / 4) % w < w,
        (i / 4) / w >= 0,
        i == spec_byte_index(w, (i / 4) % w, (i / 4) / w, i % 4),
{
    let q = i / 4;
    assert(0 <= i % 4 < 4 && i == q * 4 + i % 4 && q >= 0) by (nonlinear_arith)
        requires
            q == i / 4,
            i >= 0,
    ;
    let yy = q / w;
    assert(0 <= q % w < w && q == yy * w + q % w && yy >= 0) by (nonlinear_arith)
        requires
            yy == q / w,
            q >= 0,
            w >= 1,
    ;
}

/// A flat byte index built from a row, column and channel splits back
/// into them.
pub proof fn lemma_byte_index_decomposition(w: int, x: int, y: int, c: int)
    requires
        0 <= x < w,
        0 <= y,
        0 <= c < 4,
    ensures
        spec_byte_index(w, x, y, c) / 4 == y * w + x,
        spec_byte_index(w, x, y, c) % 4 == c,
        (y * w + x) / w == y,
        (y * w + x) % w == x,
        spec_in_column(spec_byte_index(w, x, y, c), w, x),
        spec_byte_index(w, x, y, c) >= 0,
{
    let p = y * w + x;
    assert(p >= 0 && (p * 4 + c) / 4 == p && (p * 4 + c) % 4 == c) by (nonlinear_arith)
        requires
            p == y * w + x,
            0 <= x < w,
            0 <= y,
            0 <= c < 4,
    ;
    assert(p / w == y && p % w == x) by (nonlinear_arith)
        requires
            p == y * w + x,
            0 <= x < w,
            0 <= y,
    ;
}

/// A byte index within a `w` by `h` frame has a row within `h`.
pub proof fn lemma_byte_index_row_bound(w: int, h: int, i: int)
    requires
        w >= 1,
        h >= 0,
        0 <= i < w * h * 4,
    ensures
        (i / 4) / w < h,
{
    assert((i / 4) / w < h) by (nonlinear_arith)
        requires
            0 <= i < w * h * 4,
            w >= 1,
            h >= 0,
    ;
}

/// Distinct columns write disjoint bytes, so drawing them commutes:
/// rendering columns in any order produces the same frame.
pub proof fn lemma_draw_columns_commute(
    s: Seq<u8>,
    w: int,
    h: int,
    x1: int,
    x2: int,
    hm1: HitModel,
    hm2: HitModel,
)
    requires
        0 <= x1 < w,
        0 <= x2 < w,
        x1 != x2,
    ensures
        spec_draw_column(spec_draw_column(s, w, h, x1, hm1), w, h, x2, hm2) == spec_draw_column(
            spec_draw_column(s, w, h, x2, hm2),
            w,
            h,
            x1,
            hm1,
        ),
{
    let a = spec_draw_column(spec_draw_column(s, w, h, x1, hm1), w, h, x2, hm2);
    let b = spec_draw_column(spec_draw_column(s, w, h, x2, hm2), w, h, x1, hm1);
    assert forall|i: int| 0 <= i < s.len() implies a[i] == b[i] by {
        if spec_in_column(i, w, x1) {
            assert(!spec_in_column(i, w, x2));
        }
    }
    assert(a =~= b);
}

/// The base color of a wall material.
pub fn base_color(material: u8) -> (c: Color)
    ensures
        c == spec_base_color(material as int),
{
    if material == 1 {
        Color { r: 0, g: 0, b: 255, a: 255 }
    } else if material == 2 {
        Color { r: 0, g: 255, b: 0, a: 255 }
    } else if material == 3 {
        Color { r: 255, g: 0, b: 0, a: 255 }
    } else {
        Color { r: 255, g: 0, b: 255, a: 255 }
    }
}

/// One channel darkened by the fixed shading factor.
pub fn shade_channel(c: u8) -> (d: u8)
    ensures
        d == spec_shade_channel(c),
{
    (((c as u64) * 0xC0) / 0x100) as u8
}

/// The color a wall strip is drawn in.
pub fn wall_color(material: u8, side: u8) -> (c: Color)
    ensures
        c == spec_wall_color(material as int, side as int),
{
    let base = base_color(material);
    if side == 1 {
        Color {
            r: shade_channel(base.r),
            g: shade_channel(base.g),
            b: shade_channel(base.b),
            a: 255,
        }
    } else {
        base
    }
}

/// Writes `col` into rows `[lo, hi)` of column `x`, touching nothing
/// else.
#[verifier::loop_isolation(false)]
fn fill_rows(pixels: &mut Vec<u8>, width: usize, height: usize, x: usize, lo: usize, hi: usize,
    col: Color)
    requires
        old(pixels)@.len() == width * height * 4,
        x < width,
        width <= MAX_SCREEN_DIM,
        height <= MAX_SCREEN_DIM,
        lo <= hi <= height,
    ensures
        final(pixels)@.len() == old(pixels)@.len(),
        forall|i: int|
            0 <= i < old(pixels)@.len() && !(spec_in_column(i, width as int, x as int) && lo <= (i
                / 4) / (width as int) < hi) ==> final(pixels)@[i] == old(pixels)@[i],
        forall|y: int, c: int|
            lo <= y < hi && 0 <= c < 4 ==> final(pixels)@[spec_byte_index(
                width as int,
                x as int,
                y,
                c,
            )] == spec_channel(col, c),
{
    let ghost s0 = pixels@;
    let ghost w = width as int;
    let ghost xi = x as int;
    let mut y: usize = lo;
    while y < hi
        invariant
            lo <= y <= hi,
            pixels@.len() == s0.len(),
            forall|i: int|
                0 <= i < s0.len() && !(spec_in_column(i, w, xi) && lo <= (i / 4) / w < y)
                    ==> pixels@[i] == s0[i],
            forall|yy: int, c: int|
                lo <= yy < y && 0 <= c < 4 ==> pixels@[spec_byte_index(w, xi, yy, c)]
                    == spec_channel(col, c),
        decreases hi - y,
    {
        proof {
            lemma_byte_index_decomposition(w, xi, y as int, 0);
            assert((y * width + x) * 4 + 3 < width * height * 4 && (y * width + x) * 4 + 3
                < 1073741824) by (nonlinear_arith)
                requires
                    0 <= x < width,
                    0 <= y < height,
                    width <= 16384,
                    height <= 16384,
            ;
        }
        let base: usize = (y * width + x) * 4;
        let ghost prev = pixels@;
        pixels[base] = col.r;
        pixels[base + 1] = col.g;
        pixels[base + 2] = col.b;
        pixels[base + 3] = col.a;
        proof {
            let bi = base as int;
            assert forall|i: int|
                0 <= i < s0.len() && !(spec_in_column(i, w, xi) && lo <= (i / 4) / w < y + 1)
                    implies pixels@[i] == s0[i] by {
                if bi <= i <= bi + 3 {
                    lemma_byte_index_reconstruction(w, i);
                    assert(i / 4 == (y as int) * w + xi) by (nonlinear_arith)
                        requires
                            bi <= i <= bi + 3,
                            bi == ((y as int) * w + xi) * 4,
                            (y as int) * w + xi >= 0,
                    ;
                    lemma_byte_index_decomposition(w, xi, y as int, i - bi);
                    assert(false);
                } else {
                    assert(pixels@[i] == prev[i]);
                }
            }
            assert forall|yy: int, c: int|
                lo <= yy < y + 1 && 0 <= c < 4 implies pixels@[spec_byte_index(w, xi, yy, c)]
                == spec_channel(col, c) by {
                lemma_byte_index_decomposition(w, xi, yy, c);
                let idx = spec_byte_index(w, xi, yy, c);
                if yy == y {
                    assert(idx == bi + c);
                } else {
                    assert(yy * w + xi < (y as int) * w + xi) by (nonlinear_arith)
                        requires
                            yy < y,
                            w >= 1,
                    ;
                    assert(idx < bi) by (nonlinear_arith)
                        requires
                            idx == (yy * w + xi) * 4 + c,
                            bi == ((y as int) * w + xi) * 4,
                            yy * w + xi < (y as int) * w + xi,
                            0 <= c < 4,
                    ;
                    assert(pixels@[idx] == prev[idx]);
                }
            }
        }
        y = y + 1;
    }
}

/// Rasterizes one ray hit into column `x` of the frame: ceiling above the
/// wall strip, the wall color inside it, floor below it. Writes only the
/// bytes of column `x`; every other column's pixels are untouched, which
/// makes columns independent of one another.
pub fn draw_column(pixels: &mut Vec<u8>, width: usize, height: usize, x: usize, hit: &Hit)
    requires
        old(pixels)@.len() == width * height * 4,
        x < width,
        width <= MAX_SCREEN_DIM,
        1 <= height <= MAX_SCREEN_DIM,
    ensures
        final(pixels)@ == spec_draw_column(
            old(pixels)@,
            width as int,
            height as int,
            x as int,
            hit.as_model(),
        ),
        final(pixels)@.len() == old(pixels)@.len(),
        forall|i: int|
            0 <= i < old(pixels)@.len() && !spec_in_column(i, width as int, x as int)
                ==> final(pixels)@[i] == old(pixels)@[i],
        forall|y: int, c: int|
            0 <= y < height && 0 <= c < 4 ==> final(pixels)@[spec_byte_index(
                width as int,
                x as int,
                y,
                c,
            )] == spec_column_byte(hit.as_model(), height as int, y, c),
{
    let ghost s0 = pixels@;
    let ghost w = width as int;
    let ghost h = height as int;
    let ghost xi = x as int;
    let ghost hm = hit.as_model();
    let lh: u64 = if hit.perp == 0 {
        (height as u64) * SCALE
    } else {
        ((height as u64) * SCALE) / hit.perp
    };
    proof {
        assert(lh == spec_line_height(h, hm.perp));
    }
    let half: u64 = lh / 2;
    let h2: u64 = (height as u64) / 2;
    let y0: usize = if half >= h2 {
        0
    } else {
        (h2 - half) as usize
    };
    let y1: usize = if h2 + half < (height as u64) - 1 {
        (h2 + half) as usize
    } else {
        height - 1
    };
    proof {
        assert(y0 == spec_y0(h, hm.perp));
        assert(y1 == spec_y1(h, hm.perp));
        assert(y0 <= y1 <= height - 1);
    }
    let ceil = Color { r: 0x20, g: 0x20, b: 0x20, a: 0xFF };
    let floor = Color { r: 0x40, g: 0x40, b: 0x40, a: 0xFF };
    let wall = wall_color(hit.material, hit.side);
    fill_rows(pixels, width, height, x, 0, y0, ceil);
    let ghost s1 = pixels@;
    fill_rows(pixels, width, height, x, y0, y1, wall);
    let ghost s2 = pixels@;
    fill_rows(pixels, width, height, x, y1, height, floor);
    proof {
        let target = spec_draw_column(s0, w, h, xi, hm);
        assert forall|i: int| 0 <= i < s0.len() implies pixels@[i] == target[i] by {
            lemma_byte_index_reconstruction(w, i);
            let yy = (i / 4) / w;
            let c = i % 4;
            if spec_in_column(i, w, xi) {
                lemma_byte_index_row_bound(w, h, i);
                assert(0 <= yy < h);
                assert(i == spec_byte_index(w, xi, yy, c));
                if yy < y0 {
                    assert(s1[i] == spec_channel(ceil, c));
                    assert(s2[i] == s1[i]);
                    assert(pixels@[i] == s2[i]);
                } else if yy < y1 {
                    assert(s1[i] == s0[i]);
                    assert(s2[i] == spec_channel(wall, c));
                    assert(pixels@[i] == s2[i]);
                } else {
                    assert(s1[i] == s0[i]);
                    assert(s2[i] == s1[i]);
                    assert(pixels@[i] == spec_channel(floor, c));
                }
            } else {
                assert(s1[i] == s0[i]);
                assert(s2[i] == s1[i]);
                assert(pixels@[i] == s2[i]);
            }
        }
        assert(pixels@ =~= target);
        assert forall|y: int, c: int| 0 <= y < h && 0 <= c < 4 implies pixels@[spec_byte_index(
            w,
            xi,
            y,
            c,
        )] == spec_column_byte(hm, h, y, c) by {
            lemma_byte_index_decomposition(w, xi, y, c);
            assert(spec_byte_index(w, xi, y, c) < s0.len()) by (nonlinear_arith)
                requires
                    spec_byte_index(w, xi, y, c) == (y * w + xi) * 4 + c,
                    0 <= xi < w,
                    0 <= y < h,
                    0 <= c < 4,
                    s0.len() == w * h * 4,
            ;
        }
    }
}

} // verus!
