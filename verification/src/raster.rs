//! Line rasterization: which working-space points lie between two end points.

use crate::sample::Point;
use vstd::prelude::*;

verus! {

/// Largest magnitude of a coordinate that can be rasterized. Differences of two
/// such coordinates still fit the narrowest `isize`.
pub const COORD_LIMIT: isize = 0x3fff_ffff;

/// Whether both coordinates of a point can be rasterized.
pub open spec fn in_raster_range(p: Point) -> bool {
    &&& -COORD_LIMIT <= p.0 <= COORD_LIMIT
    &&& -COORD_LIMIT <= p.1 <= COORD_LIMIT
}

/// Whether every point of a run can be rasterized.
pub open spec fn all_in_raster_range(points: Seq<Point>) -> bool {
    forall|i: int| 0 <= i < points.len() ==> in_raster_range(#[trigger] points[i])
}

/// Distance between two coordinates.
pub open spec fn span(a: int, b: int) -> nat {
    if a <= b {
        (b - a) as nat
    } else {
        (a - b) as nat
    }
}

/// Number of points that the rasterized line from `a` to `b` has: the larger
/// of the two axis distances.
pub open spec fn line_steps(a: Point, b: Point) -> nat {
    if span(a.0 as int, b.0 as int) >= span(a.1 as int, b.1 as int) {
        span(a.0 as int, b.0 as int)
    } else {
        span(a.1 as int, b.1 as int)
    }
}

/// The line-drawing iterator of the `bresenham` crate.
#[verifier::external_type_specification]
#[verifier::external_body]
pub struct ExBresenham(bresenham::Bresenham);

/// The points that `bresenham::Bresenham::new((ax, ay), (bx, by))` yields, in
/// the order in which it yields them.
pub uninterp spec fn bresenham_line(ax: isize, ay: isize, bx: isize, by: isize) -> Seq<
    (isize, isize),
>;

/// The points that a line-drawing iterator has yet to yield, in order.
pub uninterp spec fn pending_points(line: bresenham::Bresenham) -> Seq<(isize, isize)>;

/// Calls `bresenham::Bresenham::new(a, b)`. Trusted: the iterator will yield
/// the line from `a` to `b`, which has one point for each step along the
/// longer axis, the start included and the end left out. The coordinates are
/// bounded so that the iterator's own arithmetic stays within `isize`.
#[verifier::external_body]
pub(crate) fn start_line(a: Point, b: Point) -> (line: bresenham::Bresenham)
    requires
        in_raster_range(a),
        in_raster_range(b),
    ensures
        pending_points(line) == bresenham_line(a.0, a.1, b.0, b.1),
        pending_points(line).len() == line_steps(a, b),
{
    bresenham::Bresenham::new(a, b)
}

/// Calls `next` on a line-drawing iterator. Trusted: it hands out the first
/// of the pending points and keeps the others, or hands out nothing when no
/// point is pending.
#[verifier::external_body]
pub(crate) fn next_point(line: &mut bresenham::Bresenham) -> (point: Option<Point>)
    ensures
        pending_points(*old(line)).len() == 0 ==> point is None && pending_points(*final(line))
            == pending_points(*old(line)),
        pending_points(*old(line)).len() > 0 ==> point == Some(pending_points(*old(line))[0])
            && pending_points(*final(line)) == pending_points(*old(line)).skip(1),
{
    line.next()
}

/// Distance between two coordinates.
fn coordinate_span(a: isize, b: isize) -> (d: usize)
    requires
        -COORD_LIMIT <= a <= COORD_LIMIT,
        -COORD_LIMIT <= b <= COORD_LIMIT,
    ensures
        d == span(a as int, b as int),
{
    if a <= b {
        (b - a) as usize
    } else {
        (a - b) as usize
    }
}

/// Number of points on the rasterized line from `a` to `b`.
pub fn line_length(a: Point, b: Point) -> (n: usize)
    requires
        in_raster_range(a),
        in_raster_range(b),
    ensures
        n == line_steps(a, b),
        n <= 2 * COORD_LIMIT,
{
    let dx = coordinate_span(a.0, b.0);
    let dy = coordinate_span(a.1, b.1);
    if dx >= dy {
        dx
    } else {
        dy
    }
}

/// Whether a point can be rasterized.
pub fn can_rasterize(p: Point) -> (ok: bool)
    ensures
        ok == in_raster_range(p),
{
    -COORD_LIMIT <= p.0 && p.0 <= COORD_LIMIT && -COORD_LIMIT <= p.1 && p.1 <= COORD_LIMIT
}

/// Whether every point of a run can be rasterized.
pub fn can_rasterize_all(points: &[Point]) -> (ok: bool)
    ensures
        ok == all_in_raster_range(points@),
{
    let mut i: usize = 0;
    while i < points.len()
        invariant
            i <= points.len(),
            forall|k: int| 0 <= k < i ==> in_raster_range(#[trigger] points@[k]),
        decreases points.len() - i,
    {
        if !can_rasterize(points[i]) {
            return false;
        }
        i += 1;
    }
    true
}

} // verus!
