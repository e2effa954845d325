use vstd::prelude::*;
use crate::geometry::Color;

verus! {

/// Columns of the render target.
pub const WIDTH: u32 = 400;
/// Rows of the render target.
pub const HEIGHT: u32 = 300;
/// The stored depth of a cell that nothing has been written to, standing for
/// an infinite distance. A write is taken only when strictly nearer, so a
/// write at `FAR` itself is never taken, not even on a fresh cell.
pub const FAR: i64 = i64::MAX;

/// One cell of the buffer: the nearest color so far and its depth.
#[derive(Clone, Copy, PartialEq, Eq, Structural)]
pub struct CZ {
    pub c: Color,
    pub z: i64,
}

impl CZ {
    pub fn new(c: Color, z: i64) -> (r: Self)
        ensures
            r.c == c,
            r.z == z,
    {
        Self { c, z }
    }
}

pub open spec fn grid_len() -> int {
    WIDTH as int * HEIGHT as int
}

pub open spec fn in_grid(x: int, y: int) -> bool {
    0 <= x < WIDTH as int && 0 <= y < HEIGHT as int
}

/// Row-major position of the cell of pixel `(x, y)`.
pub open spec fn cell_index(x: int, y: int) -> int {
    x + y * WIDTH as int
}

/// A pixel on the grid has its cell within the buffer.
pub proof fn lemma_cell_index(x: int, y: int)
    requires
        in_grid(x, y),
    ensures
        0 <= cell_index(x, y) < grid_len(),
{
    assert(0 <= x + y * 400 < 400 * 300) by (nonlinear_arith)
        requires 0 <= x < 400, 0 <= y < 300;
}

/// The cell that a fresh buffer holds everywhere: opaque white at `FAR`.
pub open spec fn blank_cell() -> CZ {
    CZ { c: Color { r: 255, g: 255, b: 255, a: 255 }, z: FAR }
}

pub open spec fn blank_cells() -> Seq<CZ> {
    Seq::new(grid_len() as nat, |i: int| blank_cell())
}

/// The cells after a write of `cz` at pixel `(x, y)`: taken only inside the
/// grid and only when nearer than what the cell holds.
pub open spec fn write_cell(cells: Seq<CZ>, x: int, y: int, cz: CZ) -> Seq<CZ> {
    if in_grid(x, y) && cz.z < cells[cell_index(x, y)].z {
        cells.update(cell_index(x, y), cz)
    } else {
        cells
    }
}

/// A WIDTH by HEIGHT grid of cells in one row-major sequence.
pub struct ZBuffer {
    pub b: Vec<CZ>,
}

impl ZBuffer {
    pub open spec fn wf(&self) -> bool {
        self.b@.len() == grid_len()
    }

    pub open spec fn view(&self) -> Seq<CZ> {
        self.b@
    }

    /// A buffer of blank cells.
    pub fn new() -> (r: Self)
        ensures
            r.wf(),
            r.view() == blank_cells(),
    {
        let w: usize = WIDTH as usize;
        let h: usize = HEIGHT as usize;
        assert(w == 400 && h == 300);
        let n: usize = w * h;
        let mut b: Vec<CZ> = Vec::new();
        let blank = CZ::new(Color::new(255, 255, 255, 255), FAR);
        while b.len() < n
            invariant
                n == grid_len(),
                blank == blank_cell(),
                b@.len() <= n,
                forall|i: int| 0 <= i < b@.len() ==> b@[i] == blank_cell(),
            decreases n - b@.len(),
        {
            b.push(blank);
        }
        let r = Self { b };
        assert(r.view() =~= blank_cells());
        r
    }

    /// Writes `cz` at pixel `(x, y)` if the pixel is on the grid and `cz` is
    /// nearer than what the cell holds; does nothing otherwise.
    pub fn set(&mut self, x: isize, y: isize, cz: CZ)
        requires
            old(self).wf(),
        ensures
            final(self).wf(),
            final(self).view() == write_cell(old(self).view(), x as int, y as int, cz),
    {
        if !(0 > x || x >= WIDTH as isize || 0 > y || y >= HEIGHT as isize) {
            proof {
                lemma_cell_index(x as int, y as int);
            }
            let i: usize = x as usize + y as usize * WIDTH as usize;
            if cz.z < self.b[i].z {
                self.b.set(i, cz);
            }
        }
    }

    /// The cell of pixel `(x, y)`.
    pub fn get(&self, x: usize, y: usize) -> (r: CZ)
        requires
            self.wf(),
            in_grid(x as int, y as int),
        ensures
            r == self.view()[cell_index(x as int, y as int)],
    {
        proof {
            lemma_cell_index(x as int, y as int);
        }
        self.b[x + y * WIDTH as usize]
    }
}

/// Nearest wins whatever the order: of two writes to one pixel at depths
/// `d1 < d2`, the one at `d1` is what the cell shows afterwards, with depth
/// `d1`, whichever came first, as long as `d1` is nearer than what the cell
/// held (always so on a fresh buffer).
pub proof fn lemma_nearest_wins(cells: Seq<CZ>, x: int, y: int, c1: Color, c2: Color, d1: i64, d2: i64)
    requires
        cells.len() == grid_len(),
        in_grid(x, y),
        d1 < d2,
        d1 < cells[cell_index(x, y)].z,
    ensures
        write_cell(write_cell(cells, x, y, CZ { c: c1, z: d2 }), x, y, CZ { c: c2, z: d1 })[cell_index(x, y)]
            == (CZ { c: c2, z: d1 }),
        write_cell(write_cell(cells, x, y, CZ { c: c2, z: d1 }), x, y, CZ { c: c1, z: d2 })[cell_index(x, y)]
            == (CZ { c: c2, z: d1 }),
        write_cell(write_cell(cells, x, y, CZ { c: c1, z: d2 }), x, y, CZ { c: c2, z: d1 })
            == write_cell(write_cell(cells, x, y, CZ { c: c2, z: d1 }), x, y, CZ { c: c1, z: d2 }),
{
    lemma_cell_index(x, y);
    let a = write_cell(write_cell(cells, x, y, CZ { c: c1, z: d2 }), x, y, CZ { c: c2, z: d1 });
    let b = write_cell(write_cell(cells, x, y, CZ { c: c2, z: d1 }), x, y, CZ { c: c1, z: d2 });
    assert(a =~= b);
}

} // verus!
