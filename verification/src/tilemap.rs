//! The tile map: an immutable grid of material identifiers, fully enclosed
//! by solid border tiles so that every ray marched through it terminates.

use vstd::prelude::*;
use crate::fx::MAX_MAP_DIM;

verus! {

/// Whether `(x, y)` lies on the outermost ring of a `w` by `h` grid.
pub open spec fn spec_on_border(w: int, h: int, x: int, y: int) -> bool {
    x == 0 || y == 0 || x == w - 1 || y == h - 1
}

/// The material stored for `(x, y)` in a row-major grid of width `w`.
pub open spec fn spec_cell_at(s: Seq<u8>, w: int, x: int, y: int) -> u8 {
    s[y * w + x]
}

/// A well-formed grid: supported dimensions, a cell for every coordinate,
/// and a fully solid border, which is what bounds every DDA traversal.
pub open spec fn spec_grid_ok(w: int, h: int, s: Seq<u8>) -> bool {
    &&& 3 <= w <= MAX_MAP_DIM
    &&& 3 <= h <= MAX_MAP_DIM
    &&& s.len() == w * h
    &&& forall|x: int, y: int|
        0 <= x < w && 0 <= y < h && spec_on_border(w, h, x, y) ==> #[trigger] spec_cell_at(
            s,
            w,
            x,
            y,
        ) != 0
}

/// The material of the reference map at `(x, y)`: a border of material 1,
/// two material-2 tiles at column 4, rows 8 and 9, and three material-3
/// tiles at row 9, columns 7 through 9.
pub open spec fn spec_reference_cell(x: int, y: int) -> u8 {
    if spec_on_border(15, 15, x, y) {
        1
    } else if x == 4 && (y == 8 || y == 9) {
        2
    } else if y == 9 && 7 <= x <= 9 {
        3
    } else {
        0
    }
}

/// A rectangular grid of material identifiers in row-major order.
/// Material `0` is empty, any other value is a solid wall of that material.
pub struct TileMap {
    pub width: usize,
    pub height: usize,
    pub cells: Vec<u8>,
}

impl TileMap {
    /// The material at `(x, y)`.
    pub open spec fn cell(self, x: int, y: int) -> u8 {
        spec_cell_at(self.cells@, self.width as int, x, y)
    }

    /// Whether `(x, y)` is a coordinate of this map.
    pub open spec fn in_bounds(self, x: int, y: int) -> bool {
        0 <= x < self.width && 0 <= y < self.height
    }

    /// Whether `(x, y)` lies strictly inside the solid border.
    pub open spec fn interior(self, x: int, y: int) -> bool {
        1 <= x < self.width - 1 && 1 <= y < self.height - 1
    }

    pub open spec fn wf(self) -> bool {
        spec_grid_ok(self.width as int, self.height as int, self.cells@)
    }

    /// An empty cell is never on the border, so it is interior.
    pub proof fn lemma_empty_is_interior(self, x: int, y: int)
        requires
            self.wf(),
            self.in_bounds(x, y),
            self.cell(x, y) == 0,
        ensures
            self.interior(x, y),
    {
        if !self.interior(x, y) {
            assert(spec_on_border(self.width as int, self.height as int, x, y));
            assert(spec_cell_at(self.cells@, self.width as int, x, y) != 0);
        }
    }

    /// Validates dimensions, cell count, and the solid border; returns the
    /// map exactly when `cells` is a well-formed grid.
    pub fn new(width: usize, height: usize, cells: Vec<u8>) -> (r: Option<TileMap>)
        ensures
            r.is_some() <==> spec_grid_ok(width as int, height as int, cells@),
            r matches Some(m) ==> m.width == width && m.height == height && m.cells@ == cells@
                && m.wf(),
    {
        if width < 3 || width > MAX_MAP_DIM || height < 3 || height > MAX_MAP_DIM {
            return None;
        }
        proof {
            assert(width * height <= 1048576) by (nonlinear_arith)
                requires
                    width <= 1024,
                    height <= 1024,
                    width >= 0,
                    height >= 0,
            ;
        }
        if cells.len() != width * height {
            return None;
        }
        let ghost w = width as int;
        let ghost h = height as int;
        let mut y: usize = 0;
        while y < height
            invariant
                3 <= width <= MAX_MAP_DIM,
                3 <= height <= MAX_MAP_DIM,
                w == width as int,
                h == height as int,
                y <= height,
                cells@.len() == width * height,
                forall|xx: int, yy: int|
                    0 <= xx < w && 0 <= yy < y && spec_on_border(w, h, xx, yy)
                        ==> #[trigger] spec_cell_at(cells@, w, xx, yy) != 0,
            decreases height - y,
        {
            let mut x: usize = 0;
            while x < width
                invariant
                    3 <= width <= MAX_MAP_DIM,
                    3 <= height <= MAX_MAP_DIM,
                    w == width as int,
                    h == height as int,
                    y < height,
                    x <= width,
                    cells@.len() == width * height,
                    forall|xx: int, yy: int|
                        0 <= xx < w && 0 <= yy < y && spec_on_border(w, h, xx, yy)
                            ==> #[trigger] spec_cell_at(cells@, w, xx, yy) != 0,
                    forall|xx: int|
                        0 <= xx < x && spec_on_border(w, h, xx, y as int)
                            ==> #[trigger] spec_cell_at(cells@, w, xx, y as int) != 0,
                decreases width - x,
            {
                if x == 0 || y == 0 || x == width - 1 || y == height - 1 {
                    proof {
                        assert(y * width + x < width * height && width * height <= 1048576)
                            by (nonlinear_arith)
                            requires
                                0 <= x < width,
                                0 <= y < height,
                                width <= 1024,
                                height <= 1024,
                        ;
                    }
                    if cells[y * width + x] == 0 {
                        proof {
                            assert(spec_cell_at(cells@, w, x as int, y as int) == 0);
                            assert(spec_on_border(w, h, x as int, y as int));
                        }
                        return None;
                    }
                    proof {
                        assert(spec_cell_at(cells@, w, x as int, y as int) != 0);
                    }
                }
                x = x + 1;
            }
            y = y + 1;
        }
        Some(TileMap { width, height, cells })
    }

    /// The material at `(x, y)`.
    pub fn at(&self, x: usize, y: usize) -> (m: u8)
        requires
            self.wf(),
            x < self.width,
            y < self.height,
        ensures
            m == self.cell(x as int, y as int),
    {
        proof {
            assert(y * self.width + x < self.width * self.height && self.width * self.height
                <= 1048576) by (nonlinear_arith)
                requires
                    0 <= x < self.width,
                    0 <= y < self.height,
                    self.width <= 1024,
                    self.height <= 1024,
            ;
        }
        self.cells[y * self.width + x]
    }

    /// Builds the compiled-in 15 by 15 reference map.
    pub fn reference() -> (r: TileMap)
        ensures
            r.wf(),
            r.width == 15,
            r.height == 15,
            forall|x: int, y: int|
                0 <= x < 15 && 0 <= y < 15 ==> r.cell(x, y) == spec_reference_cell(x, y),
    {
        let mut cells: Vec<u8> = Vec::new();
        let mut y: usize = 0;
        while y < 15
            invariant
                y <= 15,
                cells@.len() == y * 15,
                forall|xx: int, yy: int|
                    0 <= xx < 15 && 0 <= yy < y ==> #[trigger] spec_cell_at(cells@, 15, xx, yy)
                        == spec_reference_cell(xx, yy),
            decreases 15 - y,
        {
            let mut x: usize = 0;
            while x < 15
                invariant
                    y < 15,
                    x <= 15,
                    cells@.len() == y * 15 + x,
                    forall|xx: int, yy: int|
                        0 <= xx < 15 && 0 <= yy < y ==> #[trigger] spec_cell_at(cells@, 15, xx, yy)
                            == spec_reference_cell(xx, yy),
                    forall|xx: int|
                        0 <= xx < x ==> #[trigger] spec_cell_at(cells@, 15, xx, y as int)
                            == spec_reference_cell(xx, y as int),
                decreases 15 - x,
            {
                let m: u8 = if y == 0 || y == 14 || x == 0 || x == 14 {
                    1
                } else if x == 4 && (y == 8 || y == 9) {
                    2
                } else if y == 9 && 7 <= x && x <= 9 {
                    3
                } else {
                    0
                };
                proof {
                    assert(m == spec_reference_cell(x as int, y as int));
                }
                let ghost prev = cells@;
                cells.push(m);
                proof {
                    assert forall|xx: int, yy: int| 0 <= xx < 15 && 0 <= yy < y implies #[trigger]
                    spec_cell_at(cells@, 15, xx, yy) == spec_reference_cell(xx, yy) by {
                        assert(0 <= yy * 15 + xx < prev.len());
                        assert(spec_cell_at(prev, 15, xx, yy) == spec_reference_cell(xx, yy));
                    }
                    assert forall|xx: int| 0 <= xx < x + 1 implies #[trigger] spec_cell_at(
                        cells@,
                        15,
                        xx,
                        y as int,
                    ) == spec_reference_cell(xx, y as int) by {
                        if xx < x {
                            assert(0 <= (y as int) * 15 + xx < prev.len());
                            assert(spec_cell_at(prev, 15, xx, y as int) == spec_reference_cell(
                                xx,
                                y as int,
                            ));
                        } else {
                            assert((y as int) * 15 + xx == prev.len());
                        }
                    }
                }
                x = x + 1;
            }
            y = y + 1;
        }
        let r = TileMap { width: 15, height: 15, cells };
        proof {
            assert forall|x: int, y: int|
                0 <= x < 15 && 0 <= y < 15 && spec_on_border(15, 15, x, y) implies #[trigger]
            spec_cell_at(r.cells@, 15, x, y) != 0 by {
                assert(spec_cell_at(r.cells@, 15, x, y) == spec_reference_cell(x, y));
            }
        }
        r
    }
}

} // verus!
