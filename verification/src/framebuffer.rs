//! The frame buffer and renderer: owns the RGBA pixel array sized to the
//! current output, redraws it in full once per frame by casting one ray
//! per screen column, and exposes the bytes for upload.

use vstd::prelude::*;
use crate::fx::{MAX_SCREEN_DIM, SENTINEL};
use crate::tilemap::TileMap;
use crate::camera::Camera;
use crate::raycast::{raycast, spec_raycast, Hit, HitModel};
use crate::column::{
    draw_column, lemma_byte_index_decomposition, lemma_byte_index_reconstruction,
    lemma_byte_index_row_bound, lemma_draw_columns_commute, spec_byte_index, spec_column_byte,
    spec_draw_column, spec_in_column,
};

verus! {

/// The mathematical content of a frame buffer.
pub ghost struct FrameModel {
    pub width: int,
    pub height: int,
    pub bytes: Seq<u8>,
}

/// The bytes of a fully zeroed `w` by `h` RGBA frame.
pub open spec fn spec_zero_bytes(w: int, h: int) -> Seq<u8> {
    Seq::new((w * h * 4) as nat, |i: int| 0u8)
}

/// The frame after resizing: a zero dimension is ignored, any other size
/// reallocates to a zero-filled buffer, so no stale pixels survive.
pub open spec fn spec_resize(m: FrameModel, w: int, h: int) -> FrameModel {
    if w == 0 || h == 0 {
        m
    } else {
        FrameModel { width: w, height: h, bytes: spec_zero_bytes(w, h) }
    }
}

/// The stand-in hit for a column whose ray degenerates to the zero
/// vector: an infinitely distant non-wall, whose strip is empty, so the
/// column is drawn as ceiling above the center line and floor below it.
/// Every column is drawn with *some* hit, so a render pass overwrites
/// every byte of the frame.
pub open spec fn spec_blank_hit() -> HitModel {
    HitModel { material: 0, side: 0, perp: SENTINEL as int, point_x: 0, point_y: 0 }
}

/// The hit that column `x` is rasterized from: its ray's hit, or the
/// blank stand-in when the ray degenerates.
pub open spec fn spec_column_hit(map: TileMap, cam: Camera, x: int, w: int) -> HitModel {
    match spec_raycast(map, cam, x, w) {
        Some(hm) => hm,
        None => spec_blank_hit(),
    }
}

/// The frame bytes after rendering columns `[0, n)` over `s`: every
/// column is rasterized from `spec_column_hit`, so each of these
/// columns' bytes depends on the map and camera alone.
pub open spec fn spec_render_upto(
    s: Seq<u8>,
    map: TileMap,
    cam: Camera,
    w: int,
    h: int,
    n: int,
) -> Seq<u8>
    decreases n,
{
    if n <= 0 {
        s
    } else {
        spec_draw_column(
            spec_render_upto(s, map, cam, w, h, n - 1),
            w,
            h,
            n - 1,
            spec_column_hit(map, cam, n - 1, w),
        )
    }
}

/// The frame bytes after a full render pass.
pub open spec fn spec_render(s: Seq<u8>, map: TileMap, cam: Camera, w: int, h: int) -> Seq<u8> {
    spec_render_upto(s, map, cam, w, h, w)
}

/// The frame bytes after rendering columns `[0, n)` in *descending*
/// order: column `n - 1` first, column `0` last.
pub open spec fn spec_render_desc(
    s: Seq<u8>,
    map: TileMap,
    cam: Camera,
    w: int,
    h: int,
    n: int,
) -> Seq<u8>
    decreases n,
{
    if n <= 0 {
        s
    } else {
        spec_render_desc(
            spec_draw_column(s, w, h, n - 1, spec_column_hit(map, cam, n - 1, w)),
            map,
            cam,
            w,
            h,
            n - 1,
        )
    }
}

/// Rendering preserves the byte count, and never changes an empty
/// buffer.
proof fn lemma_render_upto_len(s: Seq<u8>, map: TileMap, cam: Camera, w: int, h: int, n: int)
    ensures
        spec_render_upto(s, map, cam, w, h, n).len() == s.len(),
        s.len() == 0 ==> spec_render_upto(s, map, cam, w, h, n) == s,
    decreases n,
{
    if n > 0 {
        lemma_render_upto_len(s, map, cam, w, h, n - 1);
        let prev = spec_render_upto(s, map, cam, w, h, n - 1);
        if s.len() == 0 {
            assert(spec_draw_column(prev, w, h, n - 1, spec_column_hit(map, cam, n - 1, w)) =~= s);
        }
    }
}

/// The frame buffer and renderer: a flat row-major RGBA byte array of
/// `width * height` pixels, redrawn in full by every render pass.
pub struct Renderer {
    pub width: usize,
    pub height: usize,
    pub pixels: Vec<u8>,
}

impl Renderer {
    /// The buffer always holds exactly 4 bytes per pixel of the current
    /// dimensions.
    pub open spec fn wf(self) -> bool {
        &&& self.width <= MAX_SCREEN_DIM
        &&& self.height <= MAX_SCREEN_DIM
        &&& self.pixels@.len() == self.width * self.height * 4
    }

    pub open spec fn as_model(self) -> FrameModel {
        FrameModel { width: self.width as int, height: self.height as int, bytes: self.pixels@ }
    }

    /// A zeroed buffer for a `width` by `height` output.
    pub fn new(width: usize, height: usize) -> (r: Renderer)
        requires
            width <= MAX_SCREEN_DIM,
            height <= MAX_SCREEN_DIM,
        ensures
            r.wf(),
            r.width == width,
            r.height == height,
            r.pixels@ == spec_zero_bytes(width as int, height as int),
    {
        let pixels = zero_bytes(width, height);
        Renderer { width, height, pixels }
    }

    /// Resizes the buffer: a zero dimension is a no-op, any other size
    /// reallocates to zeroed pixels for the new dimensions.
    pub fn resize(&mut self, width: usize, height: usize)
        requires
            old(self).wf(),
            width <= MAX_SCREEN_DIM,
            height <= MAX_SCREEN_DIM,
        ensures
            final(self).wf(),
            final(self).as_model() == spec_resize(
                old(self).as_model(),
                width as int,
                height as int,
            ),
    {
        if width == 0 || height == 0 {
            return ;
        }
        self.width = width;
        self.height = height;
        self.pixels = zero_bytes(width, height);
    }

    /// Read-only view of the pixel bytes, for texture upload; row-major,
    /// 4 bytes per pixel, stride `width * 4`.
    pub fn pixels(&self) -> (r: &Vec<u8>)
        ensures
            r@ == self.pixels@,
    {
        &self.pixels
    }

    /// Renders a full frame: casts one ray per screen column through
    /// `map` from `cam` and rasterizes every column into the buffer, the
    /// blank fill standing in for a degenerate ray. Every byte of the
    /// frame is overwritten with a value fixed by the map, the camera
    /// and the dimensions alone (see `lemma_render_full_overwrite`). A
    /// buffer with a zero dimension has no pixels and is left untouched.
    #[verifier::loop_isolation(false)]
    #[verifier::rlimit(50)]
    pub fn render(&mut self, map: &TileMap, cam: &Camera)
        requires
            old(self).wf(),
            map.wf(),
            cam.wf(*map),
        ensures
            final(self).wf(),
            final(self).width == old(self).width,
            final(self).height == old(self).height,
            final(self).pixels@ == spec_render(
                old(self).pixels@,
                *map,
                *cam,
                old(self).width as int,
                old(self).height as int,
            ),
            forall|x: int, y: int, c: int|
                0 <= x < old(self).width && 0 <= y < old(self).height && 0 <= c < 4
                    ==> final(self).pixels@[spec_byte_index(old(self).width as int, x, y, c)]
                    == spec_column_byte(
                    spec_column_hit(*map, *cam, x, old(self).width as int),
                    old(self).height as int,
                    y,
                    c,
                ),
    {
        let ghost s0 = self.pixels@;
        let ghost w = self.width as int;
        let ghost h = self.height as int;
        if self.width == 0 || self.height == 0 {
            proof {
                lemma_render_upto_len(s0, *map, *cam, w, h, w);
                if self.height == 0 {
                    assert(s0.len() == 0) by (nonlinear_arith)
                        requires
                            s0.len() == self.width * self.height * 4,
                            self.height == 0,
                    ;
                }
                assert(spec_render(s0, *map, *cam, w, h) == s0);
            }
            return ;
        }
        let width = self.width;
        let height = self.height;
        let mut x: usize = 0;
        while x < width
            invariant
                x <= width,
                self.width == width,
                self.height == height,
                self.pixels@.len() == s0.len(),
                self.pixels@ == spec_render_upto(s0, *map, *cam, w, h, x as int),
            decreases width - x,
        {
            let r = raycast(map, cam, x, width);
            match r {
                Some(hit) => {
                    draw_column(&mut self.pixels, width, height, x, &hit);
                },
                None => {
                    let blank = Hit {
                        material: 0,
                        side: 0,
                        perp: SENTINEL,
                        point_x: 0,
                        point_y: 0,
                        steps: 0,
                    };
                    proof {
                        assert(blank.as_model() == spec_blank_hit());
                    }
                    draw_column(&mut self.pixels, width, height, x, &blank);
                },
            }
            x = x + 1;
        }
        proof {
            assert forall|xc: int, y: int, c: int|
                0 <= xc < width && 0 <= y < height && 0 <= c
                    < 4 implies self.pixels@[spec_byte_index(w, xc, y, c)] == spec_column_byte(
                spec_column_hit(*map, *cam, xc, w),
                h,
                y,
                c,
            ) by {
                lemma_render_column_pixels(s0, *map, *cam, w, h, xc);
            }
        }
    }
}

/// A zero-filled byte buffer for a `width` by `height` RGBA frame.
fn zero_bytes(width: usize, height: usize) -> (r: Vec<u8>)
    requires
        width <= MAX_SCREEN_DIM,
        height <= MAX_SCREEN_DIM,
    ensures
        r@ == spec_zero_bytes(width as int, height as int),
{
    proof {
        assert(width * height * 4 <= 1073741824) by (nonlinear_arith)
            requires
                width <= 16384,
                height <= 16384,
                width >= 0,
                height >= 0,
        ;
    }
    let n: usize = width * height * 4;
    let mut pixels: Vec<u8> = Vec::new();
    let mut i: usize = 0;
    while i < n
        invariant
            i <= n,
            pixels@.len() == i,
            forall|j: int| 0 <= j < i ==> pixels@[j] == 0u8,
        decreases n - i,
    {
        pixels.push(0);
        i = i + 1;
    }
    proof {
        assert(pixels@ =~= spec_zero_bytes(width as int, height as int));
    }
    pixels
}

/// A stretch of the render pass whose turns skip column `x` leaves every
/// byte of column `x` exactly as it was: each turn draws only its own
/// column.
proof fn lemma_render_upto_skips_column(
    s: Seq<u8>,
    map: TileMap,
    cam: Camera,
    w: int,
    h: int,
    n0: int,
    n1: int,
    x: int,
)
    requires
        0 <= n0 <= n1,
        0 <= x < w,
        !(n0 <= x < n1),
    ensures
        forall|i: int|
            0 <= i < s.len() && spec_in_column(i, w, x) ==> spec_render_upto(
                s,
                map,
                cam,
                w,
                h,
                n1,
            )[i] == spec_render_upto(s, map, cam, w, h, n0)[i],
    decreases n1 - n0,
{
    if n1 > n0 {
        lemma_render_upto_skips_column(s, map, cam, w, h, n0, n1 - 1, x);
        lemma_render_upto_len(s, map, cam, w, h, n1 - 1);
        let prev = spec_render_upto(s, map, cam, w, h, n1 - 1);
        assert forall|i: int| 0 <= i < s.len() && spec_in_column(i, w, x) implies spec_render_upto(
            s,
            map,
            cam,
            w,
            h,
            n1,
        )[i] == prev[i] by {
            assert(!spec_in_column(i, w, n1 - 1));
        }
    }
}

/// Column independence at the frame level: after a full render pass over
/// `s`, every column holds exactly the strip of its own hit — its ray's
/// hit, or the blank fill for a degenerate ray. No column's output
/// depends on any other column or on the previous frame.
pub proof fn lemma_render_column_pixels(s: Seq<u8>, map: TileMap, cam: Camera, w: int, h: int,
    x: int)
    requires
        0 <= x < w,
        s.len() == w * h * 4,
    ensures
        forall|y: int, c: int|
            0 <= y < h && 0 <= c < 4 ==> spec_render(s, map, cam, w, h)[spec_byte_index(
                w,
                x,
                y,
                c,
            )] == spec_column_byte(spec_column_hit(map, cam, x, w), h, y, c),
{
    let hm = spec_column_hit(map, cam, x, w);
    lemma_render_upto_skips_column(s, map, cam, w, h, 0, x, x);
    lemma_render_upto_skips_column(s, map, cam, w, h, x + 1, w, x);
    lemma_render_upto_len(s, map, cam, w, h, x);
    lemma_render_upto_len(s, map, cam, w, h, x + 1);
    let before = spec_render_upto(s, map, cam, w, h, x);
    let after = spec_render_upto(s, map, cam, w, h, x + 1);
    assert(after == spec_draw_column(before, w, h, x, hm));
    assert forall|y: int, c: int| 0 <= y < h && 0 <= c < 4 implies spec_render(
        s,
        map,
        cam,
        w,
        h,
    )[spec_byte_index(w, x, y, c)] == spec_column_byte(hm, h, y, c) by {
        lemma_byte_index_decomposition(w, x, y, c);
        let idx = spec_byte_index(w, x, y, c);
        assert(0 <= idx < s.len()) by (nonlinear_arith)
            requires
                idx == (y * w + x) * 4 + c,
                0 <= x < w,
                0 <= y < h,
                0 <= c < 4,
                s.len() == w * h * 4,
        ;
        assert(after[idx] == spec_column_byte(hm, h, y, c));
    }
}

/// A render pass overwrites the whole frame: its output is a function of
/// the map, the camera and the dimensions alone, whatever bytes the
/// buffer held before. Two renders from the same camera snapshot agree
/// byte for byte.
pub proof fn lemma_render_full_overwrite(
    s1: Seq<u8>,
    s2: Seq<u8>,
    map: TileMap,
    cam: Camera,
    w: int,
    h: int,
)
    requires
        0 <= w,
        0 <= h,
        s1.len() == w * h * 4,
        s2.len() == w * h * 4,
    ensures
        spec_render(s1, map, cam, w, h) == spec_render(s2, map, cam, w, h),
{
    let r1 = spec_render(s1, map, cam, w, h);
    let r2 = spec_render(s2, map, cam, w, h);
    lemma_render_upto_len(s1, map, cam, w, h, w);
    lemma_render_upto_len(s2, map, cam, w, h, w);
    if s1.len() == 0 {
        assert(r1 =~= r2);
    } else {
        assert(w >= 1 && h >= 1) by (nonlinear_arith)
            requires
                w * h * 4 > 0,
                0 <= w,
                0 <= h,
        ;
        assert forall|i: int| 0 <= i < s1.len() implies r1[i] == r2[i] by {
            lemma_byte_index_reconstruction(w, i);
            lemma_byte_index_row_bound(w, h, i);
            let x = (i / 4) % w;
            let y = (i / 4) / w;
            let c = i % 4;
            lemma_render_column_pixels(s1, map, cam, w, h, x);
            lemma_render_column_pixels(s2, map, cam, w, h, x);
            assert(i == spec_byte_index(w, x, y, c));
            assert(0 <= y < h && 0 <= c < 4);
            assert(r1[spec_byte_index(w, x, y, c)] == spec_column_byte(
                spec_column_hit(map, cam, x, w),
                h,
                y,
                c,
            ));
            assert(r2[spec_byte_index(w, x, y, c)] == spec_column_byte(
                spec_column_hit(map, cam, x, w),
                h,
                y,
                c,
            ));
        }
        assert(r1 =~= r2);
    }
}

/// Drawing a column not among the next `m` turns commutes past them.
proof fn lemma_render_upto_commutes_draw(
    s: Seq<u8>,
    map: TileMap,
    cam: Camera,
    w: int,
    h: int,
    m: int,
    x: int,
    hm: HitModel,
)
    requires
        0 <= m <= x < w,
    ensures
        spec_render_upto(spec_draw_column(s, w, h, x, hm), map, cam, w, h, m) == spec_draw_column(
            spec_render_upto(s, map, cam, w, h, m),
            w,
            h,
            x,
            hm,
        ),
    decreases m,
{
    if m > 0 {
        lemma_render_upto_commutes_draw(s, map, cam, w, h, m - 1, x, hm);
        lemma_draw_columns_commute(
            spec_render_upto(s, map, cam, w, h, m - 1),
            w,
            h,
            m - 1,
            x,
            spec_column_hit(map, cam, m - 1, w),
            hm,
        );
    }
}

/// Columns `[0, n)` drawn in descending order give the same frame as in
/// ascending order: distinct columns write disjoint bytes.
proof fn lemma_render_desc_eq(s: Seq<u8>, map: TileMap, cam: Camera, w: int, h: int, n: int)
    requires
        0 <= n <= w,
    ensures
        spec_render_desc(s, map, cam, w, h, n) == spec_render_upto(s, map, cam, w, h, n),
    decreases n,
{
    if n > 0 {
        let top = spec_draw_column(s, w, h, n - 1, spec_column_hit(map, cam, n - 1, w));
        lemma_render_desc_eq(top, map, cam, w, h, n - 1);
        lemma_render_upto_commutes_draw(
            s,
            map,
            cam,
            w,
            h,
            n - 1,
            n - 1,
            spec_column_hit(map, cam, n - 1, w),
        );
    }
}

/// Column order is immaterial: a full render pass that walks the columns
/// back to front produces exactly the frame of the front-to-back pass.
pub proof fn lemma_render_order_independent(s: Seq<u8>, map: TileMap, cam: Camera, w: int, h: int)
    requires
        0 <= w,
    ensures
        spec_render_desc(s, map, cam, w, h, w) == spec_render(s, map, cam, w, h),
{
    lemma_render_desc_eq(s, map, cam, w, h, w);
}

/// Resizing twice to the same dimensions is the same as resizing once:
/// the second resize rebuilds the identical zeroed buffer, so nothing is
/// corrupted, and because a render pass is a function of the frame model
/// alone, a subsequent render produces the same frame either way.
pub proof fn lemma_resize_idempotent(m: FrameModel, w: int, h: int)
    ensures
        spec_resize(spec_resize(m, w, h), w, h) == spec_resize(m, w, h),
        forall|map: TileMap, cam: Camera|
            #![all_triggers]
            spec_render(spec_resize(spec_resize(m, w, h), w, h).bytes, map, cam, w, h)
                == spec_render(spec_resize(m, w, h).bytes, map, cam, w, h),
{
}

} // verus!
