//! The shapes that a picture is made of, as the samples that show them.

use crate::raster::{all_in_raster_range, bresenham_line, in_raster_range};
use crate::sample::{
    lemma_steps_ignore_high_bits, point_samples, points_samples, Oversampling, Point,
};
use vstd::prelude::*;

verus! {

/// The samples of `count` repetitions of `unit`.
pub open spec fn repeated(unit: Seq<u8>, count: nat) -> Seq<u8>
    decreases count,
{
    if count == 0 {
        Seq::empty()
    } else {
        repeated(unit, (count - 1) as nat) + unit
    }
}

/// The samples of a point that is held for `exposure` repetitions.
pub open spec fn dot_samples(x: int, y: int, exposure: nat, oversampling: Oversampling) -> Seq<
    u8,
> {
    repeated(point_samples(x, y, oversampling), exposure)
}

/// The lines that join each vertex to the next one.
pub open spec fn open_edges(points: Seq<Point>) -> Seq<(Point, Point)> {
    if points.len() == 0 {
        Seq::empty()
    } else {
        Seq::new((points.len() - 1) as nat, |i: int| (points[i], points[i + 1]))
    }
}

/// The lines that join each vertex to the next one, and the last to the first.
pub open spec fn closed_edges(points: Seq<Point>) -> Seq<(Point, Point)> {
    Seq::new(
        points.len(),
        |i: int|
            (
                points[i],
                if i + 1 < points.len() {
                    points[i + 1]
                } else {
                    points[0]
                },
            ),
    )
}

/// Whether both ends of every line can be rasterized.
pub open spec fn edges_in_raster_range(edges: Seq<(Point, Point)>) -> bool {
    forall|i: int|
        0 <= i < edges.len() ==> in_raster_range((#[trigger] edges[i]).0) && in_raster_range(
            edges[i].1,
        )
}

/// The samples of the rasterized line from `a` to `b`.
pub open spec fn line_samples(a: Point, b: Point, oversampling: Oversampling) -> Seq<u8> {
    points_samples(bresenham_line(a.0, a.1, b.0, b.1), oversampling)
}

/// The samples of a run of rasterized lines, one after the other.
pub open spec fn edges_samples(edges: Seq<(Point, Point)>, oversampling: Oversampling) -> Seq<u8>
    decreases edges.len(),
{
    if edges.len() == 0 {
        Seq::empty()
    } else {
        edges_samples(edges.drop_last(), oversampling) + line_samples(
            edges.last().0,
            edges.last().1,
            oversampling,
        )
    }
}

/// The lines of a closed polyline: from each vertex to the next, and from the
/// last back to the first.
pub fn closed_polygon_to_lines(points: &[Point]) -> (edges: Vec<(Point, Point)>)
    ensures
        edges@ == closed_edges(points@),
        all_in_raster_range(points@) ==> edges_in_raster_range(edges@),
{
    let mut edges: Vec<(Point, Point)> = Vec::new();
    let mut i: usize = 0;
    while i < points.len()
        invariant
            i <= points.len(),
            edges@ == closed_edges(points@).take(i as int),
        decreases points.len() - i,
    {
        let next = if i + 1 < points.len() {
            points[i + 1]
        } else {
            points[0]
        };
        edges.push((points[i], next));
        assert(edges@ =~= closed_edges(points@).take(i + 1));
        i += 1;
    }
    assert(edges@ =~= closed_edges(points@));
    edges
}

/// The lines of an open polyline: from each vertex to the next.
pub fn open_polygon_to_lines(points: &[Point]) -> (edges: Vec<(Point, Point)>)
    ensures
        edges@ == open_edges(points@),
        all_in_raster_range(points@) ==> edges_in_raster_range(edges@),
{
    let mut edges: Vec<(Point, Point)> = Vec::new();
    if points.len() == 0 {
        assert(edges@ =~= open_edges(points@));
        return edges;
    }
    let mut i: usize = 0;
    while i + 1 < points.len()
        invariant
            i + 1 <= points.len(),
            edges@ == open_edges(points@).take(i as int),
        decreases points.len() - i,
    {
        edges.push((points[i], points[i + 1]));
        assert(edges@ =~= open_edges(points@).take(i + 1));
        i += 1;
    }
    assert(edges@ =~= open_edges(points@));
    edges
}

/// `count` repetitions take `count` times the bytes of one.
pub proof fn lemma_repeated_len(unit: Seq<u8>, count: nat)
    ensures
        repeated(unit, count).len() == count * unit.len(),
    decreases count,
{
    let n = unit.len() as int;
    if count > 0 {
        lemma_repeated_len(unit, (count - 1) as nat);
        assert(count * n == (count - 1) * n + n) by (nonlinear_arith);
    } else {
        assert(count * n == 0) by (nonlinear_arith)
            requires
                count == 0,
        ;
    }
}

/// A point's samples depend on the low sixteen bits of its coordinates only.
pub proof fn lemma_point_samples_wrapped(x: int, y: int, oversampling: Oversampling)
    ensures
        point_samples(x % 65536, y % 65536, oversampling) == point_samples(x, y, oversampling),
        point_samples(x, y, oversampling).len() == oversampling.point_bytes(),
{
    lemma_steps_ignore_high_bits(x);
    lemma_steps_ignore_high_bits(y);
}

/// The first lines of a run take no more bytes than the whole run.
pub proof fn lemma_edges_samples_prefix(
    edges: Seq<(Point, Point)>,
    count: int,
    oversampling: Oversampling,
)
    requires
        0 <= count <= edges.len(),
    ensures
        edges_samples(edges.take(count), oversampling).len() <= edges_samples(
            edges,
            oversampling,
        ).len(),
    decreases edges.len(),
{
    if count == edges.len() {
        assert(edges.take(count) =~= edges);
    } else {
        lemma_edges_samples_prefix(edges.drop_last(), count, oversampling);
        assert(edges.drop_last().take(count) =~= edges.take(count));
    }
}

} // verus!
