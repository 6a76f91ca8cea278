//! Glyphs: drawings made of polylines in font units, and how they are scaled
//! and moved into working space.

use crate::raster::{all_in_raster_range, in_raster_range};
use crate::sample::Point;
use vstd::prelude::*;

verus! {

/// Font units that make up one working-space step at scale 1.
pub const FONT_UNIT: i64 = 1024;

/// Bound on the distance, along either axis, between a glyph's vertex in
/// working space and the point that the glyph is moved to.
pub const GLYPH_REACH: isize = 0x20_0000;

/// Largest magnitude of a coordinate that a glyph can be moved to.
pub const ANCHOR_LIMIT: isize = 0x3fdf_ffff;

/// A vertex of a glyph, in font units, with the vertical axis as in the
/// artwork that the glyph was taken from.
pub type FontVertex = (i16, i16);

/// A glyph: polylines in font units.
pub struct Drawing {
    pub lines: Vec<Vec<FontVertex>>,
}

/// A font coordinate times `scale`, in working-space steps, rounded to the
/// nearest step and away from zero at a tie.
pub open spec fn scaled(c: int, scale: int) -> int {
    if c * scale >= 0 {
        (c * scale + 512) / 1024
    } else {
        -((512 - c * scale) / 1024)
    }
}

/// Where a vertex comes to stand: scaled, its vertical axis negated, then
/// moved by (`translate_x`, `translate_y`).
pub open spec fn placed(
    v: FontVertex,
    scale: u16,
    translate_x: isize,
    translate_y: isize,
) -> Point {
    (
        (scaled(v.0 as int, scale as int) + translate_x) as isize,
        (scaled(-(v.1 as int), scale as int) + translate_y) as isize,
    )
}

/// Where the vertices of a polyline come to stand.
pub open spec fn placed_polyline(
    line: Seq<FontVertex>,
    scale: u16,
    translate_x: isize,
    translate_y: isize,
) -> Seq<Point> {
    Seq::new(line.len(), |i: int| placed(line[i], scale, translate_x, translate_y))
}

/// Whether a glyph can be moved to (`translate_x`, `translate_y`) with all of
/// its vertices staying where lines can be rasterized.
pub open spec fn anchor_in_range(translate_x: isize, translate_y: isize) -> bool {
    &&& -ANCHOR_LIMIT <= translate_x <= ANCHOR_LIMIT
    &&& -ANCHOR_LIMIT <= translate_y <= ANCHOR_LIMIT
}

/// Whether a glyph can be moved to (`translate_x`, `translate_y`).
pub fn can_anchor(translate_x: isize, translate_y: isize) -> (ok: bool)
    ensures
        ok == anchor_in_range(translate_x, translate_y),
{
    -ANCHOR_LIMIT <= translate_x && translate_x <= ANCHOR_LIMIT && -ANCHOR_LIMIT <= translate_y
        && translate_y <= ANCHOR_LIMIT
}

impl Drawing {
    /// The polylines of the glyph.
    pub open spec fn polylines(&self) -> Seq<Seq<FontVertex>> {
        Seq::new(self.lines@.len(), |i: int| self.lines@[i]@)
    }

    /// Where the polylines of the glyph come to stand.
    pub open spec fn placed_lines(
        &self,
        scale: u16,
        translate_x: isize,
        translate_y: isize,
    ) -> Seq<Seq<Point>> {
        Seq::new(
            self.lines@.len(),
            |i: int| placed_polyline(self.lines@[i]@, scale, translate_x, translate_y),
        )
    }
}

/// Scales a font coordinate, or its negation, into working-space steps.
pub fn scale_coordinate(c: i16, negate: bool, scale: u16) -> (r: isize)
    ensures
        r == scaled(
            if negate {
                -(c as int)
            } else {
                c as int
            },
            scale as int,
        ),
        -GLYPH_REACH <= r <= GLYPH_REACH,
{
    let signed: i64 = if negate {
        -(c as i64)
    } else {
        c as i64
    };
    assert(-32768 * 65535 <= signed * scale <= 32768 * 65535) by (nonlinear_arith)
        requires
            -32768 <= signed <= 32768,
            0 <= scale <= 65535,
    ;
    let product: i64 = signed * (scale as i64);
    let steps: i64 = if product >= 0 {
        (product + 512) / FONT_UNIT
    } else {
        -((512 - product) / FONT_UNIT)
    };
    steps as isize
}

/// Moves one vertex of a glyph into working space.
pub fn place_vertex(v: FontVertex, scale: u16, translate_x: isize, translate_y: isize) -> (p: Point)
    requires
        anchor_in_range(translate_x, translate_y),
    ensures
        p == placed(v, scale, translate_x, translate_y),
        in_raster_range(p),
{
    let x = scale_coordinate(v.0, false, scale);
    let y = scale_coordinate(v.1, true, scale);
    (x + translate_x, y + translate_y)
}

/// Moves the vertices of a polyline into working space.
pub fn place_polyline(
    line: &Vec<FontVertex>,
    scale: u16,
    translate_x: isize,
    translate_y: isize,
) -> (points: Vec<Point>)
    requires
        anchor_in_range(translate_x, translate_y),
    ensures
        points@ == placed_polyline(line@, scale, translate_x, translate_y),
        all_in_raster_range(points@),
{
    let mut points: Vec<Point> = Vec::new();
    let mut i: usize = 0;
    while i < line.len()
        invariant
            i <= line.len(),
            anchor_in_range(translate_x, translate_y),
            points@ == placed_polyline(line@, scale, translate_x, translate_y).take(i as int),
            all_in_raster_range(points@),
        decreases line.len() - i,
    {
        let p = place_vertex(line[i], scale, translate_x, translate_y);
        points.push(p);
        assert(points@ =~= placed_polyline(line@, scale, translate_x, translate_y).take(i + 1));
        i += 1;
    }
    assert(points@ =~= placed_polyline(line@, scale, translate_x, translate_y));
    points
}

} // verus!
