use vstd::prelude::*;
use vstd::arithmetic::div_mod::{lemma_fundamental_div_mod, lemma_fundamental_div_mod_converse, lemma_mod_pos_bound, lemma_div_pos_is_pos};
use crate::geometry::{Color, Vec2, fits_i32};
use crate::interp::{lerp, lerp_at, lemma_lerp_between};
use crate::zbuffer::{ZBuffer, CZ, WIDTH, HEIGHT, grid_len, in_grid, cell_index, lemma_cell_index};

verus! {

/// A projected vertex: its pixel and its camera-space depth.
#[derive(Clone, Copy, PartialEq, Eq, Structural)]
pub struct SVert {
    pub p: Vec2,
    pub z: i64,
}

impl SVert {
    pub fn new(p: Vec2, z: i64) -> (r: Self)
        ensures
            r.p == p,
            r.z == z,
    {
        SVert { p, z }
    }

    /// The pixel lies within `i32`, so that edge arithmetic cannot overflow.
    pub open spec fn ok(self) -> bool {
        fits_i32(self.p.x as int) && fits_i32(self.p.y as int)
    }
}

/// Whether `u` comes strictly before `v` in the order of rows, then
/// columns, then depths.
pub open spec fn precedes(u: SVert, v: SVert) -> bool {
    u.p.y < v.p.y || (u.p.y == v.p.y && (u.p.x < v.p.x || (u.p.x == v.p.x && u.z < v.z)))
}

fn precedes_exec(u: SVert, v: SVert) -> (r: bool)
    ensures
        r == precedes(u, v),
{
    u.p.y < v.p.y || (u.p.y == v.p.y && (u.p.x < v.p.x || (u.p.x == v.p.x && u.z < v.z)))
}

/// The three vertices ordered by `precedes`, by three compare-and-swap
/// steps.
pub open spec fn sort3(a: SVert, b: SVert, c: SVert) -> (SVert, SVert, SVert) {
    let (a1, b1) = if precedes(b, a) { (b, a) } else { (a, b) };
    let (a2, c1) = if precedes(c, a1) { (c, a1) } else { (a1, c) };
    let (b2, c2) = if precedes(c1, b1) { (c1, b1) } else { (b1, c1) };
    (a2, b2, c2)
}

/// Whether `t` holds `a`, `b` and `c` in some order.
pub open spec fn is_perm3(t: (SVert, SVert, SVert), a: SVert, b: SVert, c: SVert) -> bool {
    t == (a, b, c) || t == (a, c, b) || t == (b, a, c) || t == (b, c, a) || t == (c, a, b) || t == (c, b, a)
}

/// The sorted triple is a permutation of the three vertices, ordered by row,
/// then column, then depth.
pub proof fn lemma_sort3_sorted(a: SVert, b: SVert, c: SVert)
    ensures
        is_perm3(sort3(a, b, c), a, b, c),
        !precedes(sort3(a, b, c).1, sort3(a, b, c).0),
        !precedes(sort3(a, b, c).2, sort3(a, b, c).1),
        sort3(a, b, c).0.p.y <= sort3(a, b, c).1.p.y <= sort3(a, b, c).2.p.y,
{
}

/// The sorted triple depends only on which three vertices there are, not on
/// the order in which they are given.
pub proof fn lemma_sort3_order_free(a: SVert, b: SVert, c: SVert)
    ensures
        sort3(a, b, c) == sort3(a, c, b),
        sort3(a, b, c) == sort3(b, a, c),
        sort3(a, b, c) == sort3(b, c, a),
        sort3(a, b, c) == sort3(c, a, b),
        sort3(a, b, c) == sort3(c, b, a),
{
}

/// Column of the long edge (top to bottom vertex) at row `y`.
pub open spec fn long_x(t: (SVert, SVert, SVert), y: int) -> int {
    lerp(t.0.p.y as int, t.0.p.x as int, t.2.p.y as int, t.2.p.x as int, y)
}

/// Depth along the long edge at row `y`.
pub open spec fn long_z(t: (SVert, SVert, SVert), y: int) -> int {
    lerp(t.0.p.y as int, t.0.z as int, t.2.p.y as int, t.2.z as int, y)
}

/// Column of the two short edges at row `y`: the upper one above the middle
/// vertex's row, the lower one from that row on.
pub open spec fn short_x(t: (SVert, SVert, SVert), y: int) -> int {
    if y < t.1.p.y {
        lerp(t.0.p.y as int, t.0.p.x as int, t.1.p.y as int, t.1.p.x as int, y)
    } else {
        lerp(t.1.p.y as int, t.1.p.x as int, t.2.p.y as int, t.2.p.x as int, y)
    }
}

/// Depth along the two short edges at row `y`.
pub open spec fn short_z(t: (SVert, SVert, SVert), y: int) -> int {
    if y < t.1.p.y {
        lerp(t.0.p.y as int, t.0.z as int, t.1.p.y as int, t.1.z as int, y)
    } else {
        lerp(t.1.p.y as int, t.1.z as int, t.2.p.y as int, t.2.z as int, y)
    }
}

/// The row halfway down the triangle, where the two sides are compared.
pub open spec fn mid_row(t: (SVert, SVert, SVert)) -> int {
    t.0.p.y + (t.2.p.y - t.0.p.y + 1) / 2
}

/// Whether the long edge is the left side of the triangle.
pub open spec fn long_on_left(t: (SVert, SVert, SVert)) -> bool {
    long_x(t, mid_row(t)) < short_x(t, mid_row(t))
}

pub open spec fn left_x(t: (SVert, SVert, SVert), y: int) -> int {
    if long_on_left(t) { long_x(t, y) } else { short_x(t, y) }
}

pub open spec fn right_x(t: (SVert, SVert, SVert), y: int) -> int {
    if long_on_left(t) { short_x(t, y) } else { long_x(t, y) }
}

pub open spec fn left_z(t: (SVert, SVert, SVert), y: int) -> int {
    if long_on_left(t) { long_z(t, y) } else { short_z(t, y) }
}

pub open spec fn right_z(t: (SVert, SVert, SVert), y: int) -> int {
    if long_on_left(t) { short_z(t, y) } else { long_z(t, y) }
}

/// Whether the sorted triangle `t` fills pixel `(x, y)`: its row lies between
/// the top and bottom vertex, its column between the two sides, both ends
/// included.
pub open spec fn covers(t: (SVert, SVert, SVert), x: int, y: int) -> bool {
    t.0.p.y <= y <= t.2.p.y && left_x(t, y) <= x <= right_x(t, y)
}

/// The depth that the fill gives pixel `(x, y)`: interpolated along the row
/// between the depths of the two sides.
pub open spec fn depth_at(t: (SVert, SVert, SVert), x: int, y: int) -> int {
    lerp(left_x(t, y), left_z(t, y), right_x(t, y), right_z(t, y), x)
}

/// What one cell holds after the fill of `t` in color `col`.
pub open spec fn shade(t: (SVert, SVert, SVert), col: Color, cell: CZ, x: int, y: int) -> CZ {
    if covers(t, x, y) && depth_at(t, x, y) < cell.z {
        CZ { c: col, z: depth_at(t, x, y) as i64 }
    } else {
        cell
    }
}

/// The cells after filling the sorted triangle `t` in color `col`.
pub open spec fn fill_cells(cells: Seq<CZ>, t: (SVert, SVert, SVert), col: Color) -> Seq<CZ> {
    Seq::new(cells.len(), |i: int| shade(t, col, cells[i], i % (WIDTH as int), i / (WIDTH as int)))
}

/// The cells after the rows above `y`, and the columns left of `x` in row
/// `y`, have been filled.
pub open spec fn partial_fill(cells: Seq<CZ>, t: (SVert, SVert, SVert), col: Color, y: int, x: int) -> Seq<CZ> {
    Seq::new(cells.len(), |i: int| {
        let px = i % (WIDTH as int);
        let py = i / (WIDTH as int);
        if py < y || (py == y && px < x) { shade(t, col, cells[i], px, py) } else { cells[i] }
    })
}

pub proof fn lemma_index_split(i: int)
    requires
        0 <= i < grid_len(),
    ensures
        i == cell_index(i % (WIDTH as int), i / (WIDTH as int)),
        in_grid(i % (WIDTH as int), i / (WIDTH as int)),
{
    lemma_fundamental_div_mod(i, 400);
    lemma_mod_pos_bound(i, 400);
    lemma_div_pos_is_pos(i, 400);
    assert(i / 400 < 300) by {
        if i / 400 >= 300 {
            assert((i / 400) * 400 >= 300 * 400) by (nonlinear_arith)
                requires i / 400 >= 300;
        }
    };
}

proof fn lemma_index_join(x: int, y: int)
    requires
        in_grid(x, y),
    ensures
        cell_index(x, y) % (WIDTH as int) == x,
        cell_index(x, y) / (WIDTH as int) == y,
{
    lemma_fundamental_div_mod_converse(x + y * 400, 400, y, x);
}

/// The values that the edges of a row-sorted triangle take on a row between
/// its top and bottom vertex stay between the vertices' values.
proof fn lemma_row_bounds(t: (SVert, SVert, SVert), y: int)
    requires
        t.0.ok(),
        t.1.ok(),
        t.2.ok(),
        t.0.p.y <= t.1.p.y <= t.2.p.y,
        t.0.p.y <= y <= t.2.p.y,
    ensures
        fits_i32(long_x(t, y)),
        fits_i32(short_x(t, y)),
        i64::MIN <= long_z(t, y) <= i64::MAX,
        i64::MIN <= short_z(t, y) <= i64::MAX,
{
    lemma_lerp_between(t.0.p.y as int, t.0.p.x as int, t.2.p.y as int, t.2.p.x as int, y);
    lemma_lerp_between(t.0.p.y as int, t.0.z as int, t.2.p.y as int, t.2.z as int, y);
    if y < t.1.p.y {
        lemma_lerp_between(t.0.p.y as int, t.0.p.x as int, t.1.p.y as int, t.1.p.x as int, y);
        lemma_lerp_between(t.0.p.y as int, t.0.z as int, t.1.p.y as int, t.1.z as int, y);
    } else {
        lemma_lerp_between(t.1.p.y as int, t.1.p.x as int, t.2.p.y as int, t.2.p.x as int, y);
        lemma_lerp_between(t.1.p.y as int, t.1.z as int, t.2.p.y as int, t.2.z as int, y);
    }
}

/// Long-edge and short-edge column and depth at row `y`.
fn edges_at(a: SVert, b: SVert, c: SVert, y: i64) -> (r: (i64, i64, i64, i64))
    requires
        a.ok(),
        b.ok(),
        c.ok(),
        a.p.y <= b.p.y <= c.p.y,
        a.p.y <= y <= c.p.y,
    ensures
        r.0 == long_x((a, b, c), y as int),
        r.1 == short_x((a, b, c), y as int),
        r.2 == long_z((a, b, c), y as int),
        r.3 == short_z((a, b, c), y as int),
        fits_i32(r.0 as int),
        fits_i32(r.1 as int),
{
    proof {
        lemma_row_bounds((a, b, c), y as int);
    }
    let (ay, by, cy) = (a.p.y as i32, b.p.y as i32, c.p.y as i32);
    let yi = y as i32;
    let lx = lerp_at(ay, a.p.x as i64, cy, c.p.x as i64, yi);
    let lz = lerp_at(ay, a.z, cy, c.z, yi);
    if y < b.p.y as i64 {
        (lx, lerp_at(ay, a.p.x as i64, by, b.p.x as i64, yi), lz, lerp_at(ay, a.z, by, b.z, yi))
    } else {
        (lx, lerp_at(by, b.p.x as i64, cy, c.p.x as i64, yi), lz, lerp_at(by, b.z, cy, c.z, yi))
    }
}

/// Scan-converts the triangle with screen vertices `a`, `b`, `c` into `buf`
/// in color `col`: every pixel that the row-sorted triangle covers gets `col`
/// at its interpolated depth, where that depth is nearer than what the cell
/// held; every other cell is left as it was.
pub fn fill_triangle(buf: &mut ZBuffer, a: SVert, b: SVert, c: SVert, col: Color)
    requires
        old(buf).wf(),
        a.ok(),
        b.ok(),
        c.ok(),
    ensures
        final(buf).wf(),
        final(buf).view() == fill_cells(old(buf).view(), sort3(a, b, c), col),
{
    let ghost cells0 = buf.view();
    let (mut a, mut b, mut c) = (a, b, c);
    if precedes_exec(b, a) {
        let s = a;
        a = b;
        b = s;
    }
    if precedes_exec(c, a) {
        let s = a;
        a = c;
        c = s;
    }
    if precedes_exec(c, b) {
        let s = b;
        b = c;
        c = s;
    }
    let ghost t = (a, b, c);
    assert(t == sort3(a, b, c));
    let ay: i64 = a.p.y as i64;
    let cy: i64 = c.p.y as i64;
    let ym: i64 = ay + (cy - ay + 1) / 2;
    assert(ay <= ym <= cy) by {
        assert((cy - ay + 1) / 2 <= cy - ay) by (nonlinear_arith)
            requires cy - ay >= 0;
    };
    let (lx, sx, lz, sz) = edges_at(a, b, c, ym);
    let long_left = lx < sx;
    assert(long_left == long_on_left(t));

    let y0: i64 = if ay > 0 { ay } else { 0 };
    let y1: i64 = if cy < HEIGHT as i64 - 1 { cy } else { HEIGHT as i64 - 1 };
    let mut y: i64 = y0;
    proof {
        assert(partial_fill(cells0, t, col, y as int, 0) =~= cells0) by {
            assert forall|i: int| 0 <= i < cells0.len() implies
                #[trigger] partial_fill(cells0, t, col, y as int, 0)[i] == cells0[i] by {
                lemma_index_split(i);
            };
        };
    }
    while y <= y1
        invariant
            buf.wf(),
            cells0.len() == grid_len(),
            t == (a, b, c),
            a.ok(),
            b.ok(),
            c.ok(),
            a.p.y <= b.p.y <= c.p.y,
            ay == a.p.y,
            cy == c.p.y,
            long_left == long_on_left(t),
            y0 == if ay > 0 { ay as int } else { 0 },
            y1 == if cy < 299 { cy as int } else { 299 },
            y0 <= y,
            y <= y1 + 1 || y == y0,
            buf.view() == partial_fill(cells0, t, col, y as int, 0),
        decreases y1 + 1 - y,
    {
        let (lx, sx, lz, sz) = edges_at(a, b, c, y);
        let (xl, xr, zl, zr) = if long_left { (lx, sx, lz, sz) } else { (sx, lx, sz, lz) };
        assert(xl == left_x(t, y as int) && xr == right_x(t, y as int));
        assert(zl == left_z(t, y as int) && zr == right_z(t, y as int));
        let x0: i64 = if xl > 0 { xl } else { 0 };
        let x1: i64 = if xr < WIDTH as i64 - 1 { xr } else { WIDTH as i64 - 1 };
        let mut x: i64 = x0;
        proof {
            let p0 = partial_fill(cells0, t, col, y as int, 0);
            let p1 = partial_fill(cells0, t, col, y as int, x as int);
            assert(p0 =~= p1) by {
                assert forall|i: int| 0 <= i < cells0.len() implies #[trigger] p0[i] == p1[i] by {
                    lemma_index_split(i);
                };
            };
        }
        while x <= x1
            invariant
                buf.wf(),
                cells0.len() == grid_len(),
                0 <= y < HEIGHT as int,
                t.0.p.y <= y <= t.2.p.y,
                xl == left_x(t, y as int),
                xr == right_x(t, y as int),
                zl == left_z(t, y as int),
                zr == right_z(t, y as int),
                fits_i32(xl as int),
                fits_i32(xr as int),
                x0 == if xl > 0 { xl as int } else { 0 },
                x1 == if xr < 399 { xr as int } else { 399 },
                x0 <= x,
                x <= x1 + 1 || x == x0,
                buf.view() == partial_fill(cells0, t, col, y as int, x as int),
            decreases x1 + 1 - x,
        {
            let z = lerp_at(xl as i32, zl, xr as i32, zr, x as i32);
            proof {
                lemma_lerp_between(xl as int, zl as int, xr as int, zr as int, x as int);
            }
            let ghost before = buf.view();
            buf.set(x as isize, y as isize, CZ::new(col, z));
            proof {
                let after = partial_fill(cells0, t, col, y as int, x + 1);
                lemma_cell_index(x as int, y as int);
                lemma_index_join(x as int, y as int);
                assert(buf.view() =~= after) by {
                    assert forall|i: int| 0 <= i < cells0.len() implies #[trigger] buf.view()[i] == after[i] by {
                        lemma_index_split(i);
                    };
                };
            }
            x = x + 1;
        }
        proof {
            let p0 = partial_fill(cells0, t, col, y as int, x as int);
            let p1 = partial_fill(cells0, t, col, y + 1, 0);
            assert(p0 =~= p1) by {
                assert forall|i: int| 0 <= i < cells0.len() implies #[trigger] p0[i] == p1[i] by {
                    lemma_index_split(i);
                };
            };
        }
        y = y + 1;
    }
    proof {
        let p0 = partial_fill(cells0, t, col, y as int, 0);
        let p1 = fill_cells(cells0, t, col);
        assert(p0 =~= p1) by {
            assert forall|i: int| 0 <= i < cells0.len() implies #[trigger] p0[i] == p1[i] by {
                lemma_index_split(i);
            };
        };
    }
}

} // verus!
