use vstd::prelude::*;
use crate::geometry::Vec2;

verus! {

/// The pixels that the integer line-stepping walk from `(x0, y0)` towards
/// `(x1, y1)` visits.
pub uninterp spec fn line_points(x0: int, y0: int, x1: int, y1: int) -> Seq<(isize, isize)>;

pub open spec fn abs_of(v: int) -> int {
    if v < 0 { -v } else { v }
}

/// Endpoints small enough that the stepping arithmetic cannot overflow.
pub open spec fn line_end_ok(p: Vec2) -> bool {
    -0x1000_0000 < p.x < 0x1000_0000 && -0x1000_0000 < p.y < 0x1000_0000
}

/// Relies on `bresenham::Bresenham`, iterated to the end: it yields one
/// pixel per step along the major axis, starting at `a` and stopping before
/// `b`.
#[verifier::external_body]
pub(crate) fn walk_line(a: Vec2, b: Vec2) -> (r: Vec<(isize, isize)>)
    requires
        line_end_ok(a),
        line_end_ok(b),
    ensures
        r@ == line_points(a.x as int, a.y as int, b.x as int, b.y as int),
        r@.len() == if abs_of(b.x - a.x) < abs_of(b.y - a.y) { abs_of(b.y - a.y) } else { abs_of(b.x - a.x) },
        r@.len() > 0 ==> r@[0] == (a.x, a.y),
{
    bresenham::Bresenham::new((a.x, a.y), (b.x, b.y)).collect()
}

} // verus!
