//! The geometry encoder: shapes are appended to a picture as coordinate
//! samples, each shape closing one segment of the sample stream.

use crate::font::{anchor_in_range, place_polyline, Drawing};
use crate::raster::{
    all_in_raster_range, in_raster_range, line_length, line_steps, next_point, pending_points,
    start_line,
};
use crate::sample::{
    channel_steps, frame, lemma_points_samples_len, point_samples, points_samples,
    wrap_coordinate, Oversampling, Point, FRAME_BYTES,
};
use crate::segment::{copy_segments, covered, lemma_segments_partition, partitions, Segment};
use crate::shape::{
    closed_edges, closed_polygon_to_lines, dot_samples, edges_in_raster_range, edges_samples,
    lemma_edges_samples_prefix, lemma_point_samples_wrapped, lemma_repeated_len, line_samples,
    open_edges, open_polygon_to_lines, repeated,
};
use vstd::prelude::*;

verus! {

/// Why a shape could not be appended.
#[derive(Clone, Copy, Debug, PartialEq, Eq, Structural)]
pub enum PictureError {
    /// The samples of the shape do not fit behind the write cursor.
    CapacityExceeded,
}

/// What a picture is: the samples written so far, the segments they fall into,
/// the size of the buffer behind them and the read cursor of the streaming side.
pub struct PictureView {
    pub samples: Seq<u8>,
    pub segments: Seq<Segment>,
    pub capacity: nat,
    pub cursor: nat,
    pub oversampling: Oversampling,
}

impl PictureView {
    /// A picture without samples over a buffer of `capacity` bytes.
    pub open spec fn empty(capacity: nat, oversampling: Oversampling) -> PictureView {
        PictureView {
            samples: Seq::empty(),
            segments: Seq::empty(),
            capacity,
            cursor: 0,
            oversampling,
        }
    }

    /// Whether the samples fit the buffer.
    pub open spec fn fits(self) -> bool {
        self.samples.len() <= self.capacity
    }

    /// Whether `later` is a picture over the same buffer that holds at least
    /// as many samples.
    pub open spec fn grows_to(self, later: PictureView) -> bool {
        &&& self.samples.len() <= later.samples.len()
        &&& self.capacity == later.capacity
        &&& self.cursor == later.cursor
        &&& self.oversampling == later.oversampling
    }

    /// The picture with the polylines of the glyph `font[index]` appended,
    /// scaled by `scale` and moved to `at`.
    pub open spec fn with_glyph(
        self,
        font: Seq<Drawing>,
        index: int,
        scale: u16,
        at: Point,
    ) -> PictureView {
        self.with_polylines(font[index].placed_lines(scale, at.0, at.1))
    }

    /// The picture with `shape` appended as one more segment.
    pub open spec fn with_segment(self, shape: Seq<u8>) -> PictureView {
        PictureView {
            samples: self.samples + shape,
            segments: self.segments.push(
                (self.samples.len() as usize, (self.samples.len() + shape.len()) as usize),
            ),
            ..self
        }
    }

    /// The picture with one hardware sample appended.
    pub open spec fn with_raw_point(self, x: u8, y: u8) -> PictureView {
        self.with_segment(frame(x, y))
    }

    /// The picture with one working-space point appended.
    pub open spec fn with_point(self, x: int, y: int) -> PictureView {
        self.with_segment(point_samples(x, y, self.oversampling))
    }

    /// The picture with a point appended that is held for `exposure` repetitions.
    pub open spec fn with_dot(self, x: int, y: int, exposure: nat) -> PictureView {
        self.with_segment(dot_samples(x, y, exposure, self.oversampling))
    }

    /// The picture with the rasterized line from `a` to `b` appended.
    pub open spec fn with_line(self, a: Point, b: Point) -> PictureView {
        self.with_segment(line_samples(a, b, self.oversampling))
    }

    /// The picture with the polyline through `points` appended.
    pub open spec fn with_open_polygon(self, points: Seq<Point>) -> PictureView {
        self.with_segment(edges_samples(open_edges(points), self.oversampling))
    }

    /// The picture with the closed polyline through `points` appended.
    pub open spec fn with_closed_polygon(self, points: Seq<Point>) -> PictureView {
        self.with_segment(edges_samples(closed_edges(points), self.oversampling))
    }

    /// The picture with each polyline of `lines` appended as a segment of its own.
    pub open spec fn with_polylines(self, lines: Seq<Seq<Point>>) -> PictureView
        decreases lines.len(),
    {
        if lines.len() == 0 {
            self
        } else {
            self.with_polylines(lines.drop_last()).with_open_polygon(lines.last())
        }
    }
}

/// The write cursor and the segments of a picture at the moment at which its
/// unchanging part was complete. A later picture over the same bytes starts
/// from it.
pub struct StaticPartMeta {
    /// Number of bytes written.
    pub out_index: usize,
    /// The segments, in drawing order.
    pub parts: Vec<Segment>,
}

impl StaticPartMeta {
    /// The segments cut the written bytes into consecutive ranges.
    pub open spec fn wf(&self) -> bool {
        partitions(self.parts@, self.out_index as int)
    }

    /// Whether the segments cut the written bytes into consecutive ranges of
    /// whole frames.
    pub fn is_sound(&self) -> (ok: bool)
        ensures
            ok == self.wf(),
    {
        let count = self.parts.len();
        if count == 0 {
            return self.out_index == 0;
        }
        if self.parts[0].0 != 0 || self.parts[count - 1].1 != self.out_index {
            return false;
        }
        let mut i: usize = 0;
        while i < count
            invariant
                i <= count,
                count == self.parts.len(),
                forall|k: int|
                    0 <= k < i ==> {
                        &&& (#[trigger] self.parts@[k]).0 <= self.parts@[k].1
                        &&& self.parts@[k].0 % 4 == 0
                        &&& self.parts@[k].1 % 4 == 0
                    },
                forall|k: int|
                    0 <= k < i && k < count - 1 ==> (#[trigger] self.parts@[k]).1 == self.parts@[k
                        + 1].0,
            decreases count - i,
        {
            let segment = self.parts[i];
            if segment.0 > segment.1 || segment.0 % 4 != 0 || segment.1 % 4 != 0 {
                return false;
            }
            if i + 1 < count && segment.1 != self.parts[i + 1].0 {
                return false;
            }
            i += 1;
        }
        true
    }

    /// The picture that starts out from this record over a buffer that holds
    /// `bytes`.
    pub open spec fn resumed(&self, bytes: Seq<u8>, oversampling: Oversampling) -> PictureView {
        PictureView {
            samples: bytes.take(self.out_index as int),
            segments: self.parts@,
            capacity: bytes.len(),
            cursor: 0,
            oversampling,
        }
    }
}

/// A sample buffer that is being filled with shapes, or streamed.
pub struct Picture {
    /// The sample buffer. Only the bytes before `out_index` are part of the picture.
    pub tx_buffer: Vec<u8>,
    /// The write cursor: number of bytes written.
    pub out_index: usize,
    /// The segments, in drawing order.
    pub parts: Vec<Segment>,
    /// The read cursor: index of the segment that is streamed next.
    pub current_part: usize,
    /// Resolution of the working space in which shapes are given.
    pub oversampling: Oversampling,
}

impl View for Picture {
    type V = PictureView;

    open spec fn view(&self) -> PictureView {
        PictureView {
            samples: self.written(),
            segments: self.parts@,
            capacity: self.tx_buffer.len() as nat,
            cursor: self.current_part as nat,
            oversampling: self.oversampling,
        }
    }
}

impl Picture {
    /// The bytes before the write cursor.
    pub open spec fn written(&self) -> Seq<u8> {
        self.tx_buffer@.take(self.out_index as int)
    }

    /// The write cursor lies within the buffer, the segments cut the written
    /// bytes into consecutive ranges, and the read cursor lies within the
    /// segment list or just behind it.
    pub open spec fn wf(&self) -> bool {
        &&& self.out_index <= self.tx_buffer.len()
        &&& partitions(self.parts@, self.out_index as int)
        &&& self.current_part <= self.parts.len()
    }

    /// `self` is `before` with the bytes `shape` written behind its cursor and
    /// no segment closed yet.
    spec fn extends(&self, before: Picture, shape: Seq<u8>) -> bool {
        &&& self.tx_buffer.len() == before.tx_buffer.len()
        &&& self.parts@ == before.parts@
        &&& self.current_part == before.current_part
        &&& self.oversampling == before.oversampling
        &&& self.out_index == before.out_index + shape.len()
        &&& self.written() == before.written() + shape
    }

    /// How drawing towards `target` from `before` ended in `self`: on success,
    /// exactly when `target` fits its buffer, the picture is `target`; on
    /// failure the picture is what it was.
    pub open spec fn reached(
        &self,
        before: Picture,
        target: PictureView,
        r: Result<(), PictureError>,
    ) -> bool {
        &&& r is Ok <==> target.fits()
        &&& r is Ok ==> self@ == target
        &&& r is Err ==> self@ == before@ && r == Err::<(), PictureError>(
            PictureError::CapacityExceeded,
        )
    }

    /// How appending the segment `shape` to `before` ended in `self`: on
    /// success, exactly when the segment fits, the picture is `before` with the
    /// segment appended; on failure the picture is what it was.
    pub open spec fn appended(
        &self,
        before: Picture,
        shape: Seq<u8>,
        r: Result<(), PictureError>,
    ) -> bool {
        self.reached(before, before@.with_segment(shape), r)
    }

    /// An empty picture in doubled resolution over `tx_buffer`.
    pub fn new(tx_buffer: Vec<u8>) -> (picture: Picture)
        ensures
            picture.wf(),
            picture@ == PictureView::empty(tx_buffer.len() as nat, Oversampling::Double),
            picture.tx_buffer == tx_buffer,
    {
        Picture::with_oversampling(tx_buffer, Oversampling::Double)
    }

    /// An empty picture over `tx_buffer` whose shapes are given in the
    /// resolution `oversampling`.
    pub fn with_oversampling(tx_buffer: Vec<u8>, oversampling: Oversampling) -> (picture: Picture)
        ensures
            picture.wf(),
            picture@ == PictureView::empty(tx_buffer.len() as nat, oversampling),
            picture.tx_buffer == tx_buffer,
    {
        let picture = Picture {
            tx_buffer,
            out_index: 0,
            parts: Vec::new(),
            current_part: 0,
            oversampling,
        };
        assert(picture.written() =~= Seq::empty());
        picture
    }

    /// Writes one hardware sample behind the cursor.
    fn put_frame(&mut self, x: u8, y: u8)
        requires
            old(self).out_index + 4 <= old(self).tx_buffer.len(),
        ensures
            final(self).extends(*old(self), frame(x, y)),
            final(self).out_index % 4 == old(self).out_index % 4,
    {
        let at = self.out_index;
        self.tx_buffer.set(at, 0);
        self.tx_buffer.set(at + 1, x);
        self.tx_buffer.set(at + 2, 0);
        self.tx_buffer.set(at + 3, y);
        self.out_index = at + FRAME_BYTES;
        assert(self.written() =~= old(self).written() + frame(x, y));
    }

    /// Writes the samples of one working-space point behind the cursor.
    fn put_point(&mut self, x: u16, y: u16)
        requires
            old(self).out_index + old(self).oversampling.point_bytes() <= old(
                self,
            ).tx_buffer.len(),
        ensures
            final(self).extends(
                *old(self),
                point_samples(x as int, y as int, old(self).oversampling),
            ),
            final(self).out_index % 4 == old(self).out_index % 4,
    {
        let xs = channel_steps(x, self.oversampling);
        let ys = channel_steps(y, self.oversampling);
        match self.oversampling {
            Oversampling::Native => {
                self.put_frame(xs.0, ys.0);
            },
            Oversampling::Double => {
                self.put_frame(xs.0, ys.0);
                self.put_frame(xs.1, ys.1);
                assert(self.written() =~= old(self).written() + (frame(xs.0, ys.0) + frame(
                    xs.1,
                    ys.1,
                )));
            },
        }
    }

    /// Closes the segment that began at `start` and ends at the cursor.
    fn close_segment(&mut self, start: usize)
        requires
            old(self).out_index <= old(self).tx_buffer.len(),
            start <= old(self).out_index,
            start % 4 == 0,
            old(self).out_index % 4 == 0,
            partitions(old(self).parts@, start as int),
            old(self).current_part <= old(self).parts.len(),
        ensures
            final(self).wf(),
            final(self).tx_buffer == old(self).tx_buffer,
            final(self).out_index == old(self).out_index,
            final(self).current_part == old(self).current_part,
            final(self).oversampling == old(self).oversampling,
            final(self).parts@ == old(self).parts@.push((start, old(self).out_index)),
    {
        self.parts.push((start, self.out_index));
        proof {
            let before = old(self).parts@;
            let after = self.parts@;
            assert forall|i: int| 0 <= i < after.len() - 1 implies (#[trigger] after[i]).1
                == after[i + 1].0 by {
                if i < before.len() - 1 {
                    assert(after[i] == before[i]);
                    assert(after[i + 1] == before[i + 1]);
                } else {
                    assert(after[i] == before.last());
                }
            }
            assert forall|i: int| 0 <= i < after.len() implies {
                &&& (#[trigger] after[i]).0 <= after[i].1
                &&& after[i].0 % 4 == 0
                &&& after[i].1 % 4 == 0
            } by {
                if i < before.len() {
                    assert(after[i] == before[i]);
                }
            }
            if before.len() > 0 {
                assert(after[0] == before[0]);
            }
        }
    }

    /// Appends one hardware sample as a segment of its own.
    pub fn add_raw_point(&mut self, x: u8, y: u8) -> (r: Result<(), PictureError>)
        requires
            old(self).wf(),
        ensures
            final(self).wf(),
            final(self).appended(*old(self), frame(x, y), r),
    {
        let start = self.out_index;
        if self.tx_buffer.len() - start < FRAME_BYTES {
            return Err(PictureError::CapacityExceeded);
        }
        proof {
            old(self).lemma_cursor_aligned();
        }
        self.put_frame(x, y);
        self.close_segment(start);
        Ok(())
    }

    /// Appends one working-space point as a segment of its own. In doubled
    /// resolution the point becomes two samples, the coordinate halved and
    /// rounded down in the first and rounded up in the second.
    pub fn add_point(&mut self, x: u16, y: u16) -> (r: Result<(), PictureError>)
        requires
            old(self).wf(),
        ensures
            final(self).wf(),
            final(self).appended(
                *old(self),
                point_samples(x as int, y as int, old(self).oversampling),
                r,
            ),
    {
        let start = self.out_index;
        if self.tx_buffer.len() - start < self.oversampling.bytes_per_point() {
            return Err(PictureError::CapacityExceeded);
        }
        proof {
            old(self).lemma_cursor_aligned();
        }
        self.put_point(x, y);
        self.close_segment(start);
        Ok(())
    }

    /// Writes the samples of a point `exposure` times behind the cursor, unless
    /// they do not fit.
    fn put_dot(&mut self, x: u16, y: u16, exposure: usize) -> (fits: bool)
        requires
            old(self).out_index <= old(self).tx_buffer.len(),
        ensures
            fits <==> old(self).out_index + dot_samples(
                x as int,
                y as int,
                exposure as nat,
                old(self).oversampling,
            ).len() <= old(self).tx_buffer.len(),
            fits ==> final(self).extends(
                *old(self),
                dot_samples(x as int, y as int, exposure as nat, old(self).oversampling),
            ),
            !fits ==> *final(self) == *old(self),
            final(self).out_index % 4 == old(self).out_index % 4,
    {
        let per = self.oversampling.bytes_per_point();
        let room = self.tx_buffer.len() - self.out_index;
        let ghost before = *self;
        let ghost unit = point_samples(x as int, y as int, self.oversampling);
        proof {
            lemma_repeated_len(unit, exposure as nat);
            lemma_fits_room(exposure as int, per as int, room as int);
            assert(self.written() + repeated(unit, 0) =~= self.written());
        }
        if exposure > room / per {
            return false;
        }
        let mut i: usize = 0;
        while i < exposure
            invariant
                i <= exposure,
                per == before.oversampling.point_bytes(),
                before.out_index + exposure * per <= before.tx_buffer.len(),
                unit == point_samples(x as int, y as int, before.oversampling),
                unit.len() == per,
                self.extends(before, repeated(unit, i as nat)),
                repeated(unit, i as nat).len() == i * per,
                self.out_index % 4 == before.out_index % 4,
            decreases exposure - i,
        {
            proof {
                lemma_repeated_len(unit, (i + 1) as nat);
                assert(i * per + per <= exposure * per) by (nonlinear_arith)
                    requires
                        i < exposure,
                        per >= 0,
                ;
            }
            let ghost previous = *self;
            self.put_point(x, y);
            proof {
                self.lemma_extends_chain(previous, before, repeated(unit, i as nat), unit);
            }
            i += 1;
        }
        true
    }

    /// Appends a point that is repeated `exposure` times, so that the beam
    /// dwells on it.
    pub fn add_dot(&mut self, x: u16, y: u16, exposure: usize) -> (r: Result<(), PictureError>)
        requires
            old(self).wf(),
        ensures
            final(self).wf(),
            final(self).appended(
                *old(self),
                dot_samples(x as int, y as int, exposure as nat, old(self).oversampling),
                r,
            ),
    {
        let start = self.out_index;
        proof {
            old(self).lemma_cursor_aligned();
        }
        if !self.put_dot(x, y, exposure) {
            return Err(PictureError::CapacityExceeded);
        }
        self.close_segment(start);
        Ok(())
    }

    /// Appends a point, given as a coordinate pair, that is repeated
    /// `exposure` times.
    pub fn add_dot2(&mut self, p: Point, exposure: usize) -> (r: Result<(), PictureError>)
        requires
            old(self).wf(),
        ensures
            final(self).wf(),
            final(self).appended(
                *old(self),
                dot_samples(p.0 as int, p.1 as int, exposure as nat, old(self).oversampling),
                r,
            ),
    {
        let x = wrap_coordinate(p.0);
        let y = wrap_coordinate(p.1);
        proof {
            lemma_point_samples_wrapped(p.0 as int, p.1 as int, self.oversampling);
        }
        self.add_dot(x, y, exposure)
    }

    /// Writes the samples of a run of points behind the cursor, unless they do
    /// not fit.
    fn put_points(&mut self, points: &[Point]) -> (fits: bool)
        requires
            old(self).out_index <= old(self).tx_buffer.len(),
        ensures
            fits <==> old(self).out_index + points_samples(points@, old(self).oversampling).len()
                <= old(self).tx_buffer.len(),
            fits ==> final(self).extends(
                *old(self),
                points_samples(points@, old(self).oversampling),
            ),
            !fits ==> *final(self) == *old(self),
            final(self).out_index % 4 == old(self).out_index % 4,
    {
        let per = self.oversampling.bytes_per_point();
        let room = self.tx_buffer.len() - self.out_index;
        let ghost before = *self;
        proof {
            lemma_points_samples_len(points@, self.oversampling);
            lemma_fits_room(points.len() as int, per as int, room as int);
            assert(self.written() + points_samples(points@.take(0), self.oversampling)
                =~= self.written());
        }
        if points.len() > room / per {
            return false;
        }
        let mut i: usize = 0;
        while i < points.len()
            invariant
                i <= points.len(),
                per == before.oversampling.point_bytes(),
                before.out_index + points.len() * per <= before.tx_buffer.len(),
                self.extends(before, points_samples(points@.take(i as int), before.oversampling)),
                points_samples(points@.take(i as int), before.oversampling).len() == i * per,
                self.out_index % 4 == before.out_index % 4,
            decreases points.len() - i,
        {
            let p = points[i];
            let x = wrap_coordinate(p.0);
            let y = wrap_coordinate(p.1);
            proof {
                lemma_point_samples_wrapped(p.0 as int, p.1 as int, self.oversampling);
                assert(points@.take(i + 1).drop_last() =~= points@.take(i as int));
                lemma_points_samples_len(points@.take(i + 1), before.oversampling);
                assert(i * per + per <= points.len() * per) by (nonlinear_arith)
                    requires
                        i < points.len(),
                        per >= 0,
                ;
            }
            let ghost previous = *self;
            self.put_point(x, y);
            proof {
                self.lemma_extends_chain(
                    previous,
                    before,
                    points_samples(points@.take(i as int), before.oversampling),
                    point_samples(p.0 as int, p.1 as int, before.oversampling),
                );
            }
            i += 1;
        }
        assert(points@.take(points.len() as int) =~= points@);
        true
    }

    /// Appends a run of points, one after the other, as one segment.
    pub fn add_points(&mut self, points: &[Point]) -> (r: Result<(), PictureError>)
        requires
            old(self).wf(),
        ensures
            final(self).wf(),
            final(self).appended(*old(self), points_samples(points@, old(self).oversampling), r),
    {
        let start = self.out_index;
        proof {
            old(self).lemma_cursor_aligned();
        }
        if !self.put_points(points) {
            return Err(PictureError::CapacityExceeded);
        }
        self.close_segment(start);
        Ok(())
    }

    /// Rasterizes the line from `a` to `b` and writes its samples behind the
    /// cursor, unless they do not fit.
    fn put_line(&mut self, a: Point, b: Point) -> (fits: bool)
        requires
            old(self).out_index <= old(self).tx_buffer.len(),
            in_raster_range(a),
            in_raster_range(b),
        ensures
            fits <==> old(self).out_index + line_samples(a, b, old(self).oversampling).len()
                <= old(self).tx_buffer.len(),
            fits ==> final(self).extends(*old(self), line_samples(a, b, old(self).oversampling)),
            !fits ==> *final(self) == *old(self),
            line_samples(a, b, old(self).oversampling).len() == line_steps(a, b) * old(
                self,
            ).oversampling.point_bytes(),
            final(self).out_index % 4 == old(self).out_index % 4,
    {
        let per = self.oversampling.bytes_per_point();
        let room = self.tx_buffer.len() - self.out_index;
        let mut line = start_line(a, b);
        let ghost points = pending_points(line);
        let ghost before = *self;
        proof {
            lemma_points_samples_len(points, self.oversampling);
            lemma_fits_room(points.len() as int, per as int, room as int);
            assert(self.written() + points_samples(points.take(0), self.oversampling)
                =~= self.written());
        }
        if line_length(a, b) > room / per {
            return false;
        }
        let ghost mut done: int = 0;
        loop
            invariant
                0 <= done <= points.len(),
                per == before.oversampling.point_bytes(),
                before.out_index + points.len() * per <= before.tx_buffer.len(),
                pending_points(line) == points.skip(done),
                self.extends(before, points_samples(points.take(done), before.oversampling)),
                points_samples(points.take(done), before.oversampling).len() == done * per,
                self.out_index % 4 == before.out_index % 4,
            ensures
                self.extends(before, points_samples(points, before.oversampling)),
                self.out_index % 4 == before.out_index % 4,
            decreases points.len() - done,
        {
            let next = next_point(&mut line);
            match next {
                None => {
                    assert(points.take(done) =~= points);
                    break ;
                },
                Some(p) => {
                    let x = wrap_coordinate(p.0);
                    let y = wrap_coordinate(p.1);
                    proof {
                        assert(p == points[done]);
                        lemma_point_samples_wrapped(p.0 as int, p.1 as int, self.oversampling);
                        assert(points.take(done + 1).drop_last() =~= points.take(done));
                        lemma_points_samples_len(points.take(done + 1), before.oversampling);
                        assert(done * per + per <= points.len() * per) by (nonlinear_arith)
                            requires
                                done < points.len(),
                                per >= 0,
                        ;
                        assert(points.skip(done).skip(1) =~= points.skip(done + 1));
                    }
                    let ghost previous = *self;
                    self.put_point(x, y);
                    proof {
                        self.lemma_extends_chain(
                            previous,
                            before,
                            points_samples(points.take(done), before.oversampling),
                            point_samples(p.0 as int, p.1 as int, before.oversampling),
                        );
                        done = done + 1;
                    }
                },
            }
        }
        true
    }

    /// Appends the rasterized line from `a` to `b`: one point for each step
    /// along the longer axis, from `a` on and short of `b`.
    pub fn add_line(&mut self, a: Point, b: Point) -> (r: Result<(), PictureError>)
        requires
            old(self).wf(),
            in_raster_range(a),
            in_raster_range(b),
        ensures
            final(self).wf(),
            final(self).appended(*old(self), line_samples(a, b, old(self).oversampling), r),
            line_samples(a, b, old(self).oversampling).len() == line_steps(a, b) * old(
                self,
            ).oversampling.point_bytes(),
    {
        let start = self.out_index;
        proof {
            old(self).lemma_cursor_aligned();
        }
        if !self.put_line(a, b) {
            return Err(PictureError::CapacityExceeded);
        }
        self.close_segment(start);
        Ok(())
    }

    /// Rasterizes a run of lines and writes their samples behind the cursor,
    /// unless they do not fit; the cursor then stays where it was.
    fn put_edges(&mut self, edges: &Vec<(Point, Point)>) -> (fits: bool)
        requires
            old(self).out_index <= old(self).tx_buffer.len(),
            edges_in_raster_range(edges@),
        ensures
            fits <==> old(self).out_index + edges_samples(edges@, old(self).oversampling).len()
                <= old(self).tx_buffer.len(),
            fits ==> final(self).extends(
                *old(self),
                edges_samples(edges@, old(self).oversampling),
            ),
            !fits ==> final(self).extends(*old(self), Seq::empty()),
            final(self).out_index % 4 == old(self).out_index % 4,
    {
        let start = self.out_index;
        let ghost before = *self;
        let ghost o = self.oversampling;
        let mut i: usize = 0;
        assert(self.written() + edges_samples(edges@.take(0), o) =~= self.written());
        while i < edges.len()
            invariant
                i <= edges.len(),
                before == *old(self),
                o == before.oversampling,
                start == before.out_index,
                edges_in_raster_range(edges@),
                self.out_index <= self.tx_buffer.len(),
                self.extends(before, edges_samples(edges@.take(i as int), o)),
                self.out_index % 4 == before.out_index % 4,
            decreases edges.len() - i,
        {
            let edge = edges[i];
            let ghost previous = *self;
            let fits = self.put_line(edge.0, edge.1);
            proof {
                assert(edges@.take(i + 1).drop_last() =~= edges@.take(i as int));
                lemma_edges_samples_prefix(edges@, i + 1, o);
            }
            proof {
                let drawn = edges_samples(edges@.take(i as int), o);
                assert(edges@.take(i + 1).last() == edge);
                assert(edges_samples(edges@.take(i + 1), o) == drawn + line_samples(
                    edge.0,
                    edge.1,
                    o,
                ));
            }
            if !fits {
                self.out_index = start;
                proof {
                    let drawn = edges_samples(edges@.take(i as int), o);
                    assert(previous.written() == before.written() + drawn);
                    assert(previous.written().take(start as int) =~= before.written());
                    assert(self.tx_buffer@.take(start as int) =~= previous.written().take(
                        start as int,
                    ));
                    assert(self.written() =~= before.written() + Seq::<u8>::empty());
                }
                return false;
            }
            proof {
                self.lemma_extends_chain(
                    previous,
                    before,
                    edges_samples(edges@.take(i as int), o),
                    line_samples(edge.0, edge.1, o),
                );
            }
            i += 1;
        }
        assert(edges@.take(edges.len() as int) =~= edges@);
        true
    }

    /// Appends the rasterized lines `edges` as one segment.
    fn add_edges(&mut self, edges: &Vec<(Point, Point)>) -> (r: Result<(), PictureError>)
        requires
            old(self).wf(),
            edges_in_raster_range(edges@),
        ensures
            final(self).wf(),
            final(self).appended(*old(self), edges_samples(edges@, old(self).oversampling), r),
    {
        let start = self.out_index;
        proof {
            old(self).lemma_cursor_aligned();
        }
        let fits = self.put_edges(edges);
        if !fits {
            assert(self.written() =~= old(self).written());
            return Err(PictureError::CapacityExceeded);
        }
        self.close_segment(start);
        Ok(())
    }

    /// Appends the closed polyline through `points`: the lines from each vertex
    /// to the next and from the last back to the first, as one segment.
    pub fn add_closed_polygon(&mut self, points: &[Point]) -> (r: Result<(), PictureError>)
        requires
            old(self).wf(),
            all_in_raster_range(points@),
        ensures
            final(self).wf(),
            final(self).appended(
                *old(self),
                edges_samples(closed_edges(points@), old(self).oversampling),
                r,
            ),
    {
        let edges = closed_polygon_to_lines(points);
        self.add_edges(&edges)
    }

    /// Appends the polyline through `points`: the lines from each vertex to the
    /// next, as one segment.
    pub fn add_open_polygon(&mut self, points: &[Point]) -> (r: Result<(), PictureError>)
        requires
            old(self).wf(),
            all_in_raster_range(points@),
        ensures
            final(self).wf(),
            final(self).appended(
                *old(self),
                edges_samples(open_edges(points@), old(self).oversampling),
                r,
            ),
    {
        let edges = open_polygon_to_lines(points);
        self.add_edges(&edges)
    }

    /// Draws a glyph: each of its polylines is scaled, its vertical axis
    /// negated, moved by (`translate_x`, `translate_y`) and appended as an open
    /// polyline. Either the whole glyph is appended or nothing.
    pub fn draw_font(
        &mut self,
        drawing: &Drawing,
        scale: u16,
        translate_x: isize,
        translate_y: isize,
    ) -> (r: Result<(), PictureError>)
        requires
            old(self).wf(),
            anchor_in_range(translate_x, translate_y),
        ensures
            final(self).wf(),
            final(self).reached(
                *old(self),
                old(self)@.with_polylines(drawing.placed_lines(scale, translate_x, translate_y)),
                r,
            ),
    {
        let ghost before = *self;
        let start = self.out_index;
        let closed = self.parts.len();
        let ghost lines = drawing.placed_lines(scale, translate_x, translate_y);
        let mut i: usize = 0;
        proof {
            assert(lines.take(0) =~= Seq::<Seq<Point>>::empty());
            assert(self.parts@.take(closed as int) =~= before.parts@);
        }
        while i < drawing.lines.len()
            invariant
                i <= drawing.lines.len(),
                before == *old(self),
                before.wf(),
                self.wf(),
                start == before.out_index,
                closed == before.parts.len(),
                anchor_in_range(translate_x, translate_y),
                lines == drawing.placed_lines(scale, translate_x, translate_y),
                self@ == before@.with_polylines(lines.take(i as int)),
                self.continues(before),
            decreases drawing.lines.len() - i,
        {
            let points = place_polyline(&drawing.lines[i], scale, translate_x, translate_y);
            let ghost previous = *self;
            let r = self.add_open_polygon(points.as_slice());
            proof {
                assert(lines.take(i + 1).drop_last() =~= lines.take(i as int));
                assert(lines.take(i + 1).last() == points@);
                lemma_polylines_prefix(before@, lines, i + 1);
            }
            match r {
                Err(e) => {
                    proof {
                        self.lemma_continues_same(previous, before);
                    }
                    self.rewind(Ghost(before), start, closed);
                    return Err(e);
                },
                Ok(()) => {
                    proof {
                        self.lemma_continues_step(
                            previous,
                            before,
                            edges_samples(open_edges(points@), previous.oversampling),
                        );
                    }
                },
            }
            i += 1;
        }
        assert(lines.take(drawing.lines.len() as int) =~= lines);
        Ok(())
    }

    /// `self` came from `before` by appending segments: what `before` held is
    /// still there, in front of whatever came after it.
    spec fn continues(&self, before: Picture) -> bool {
        &&& self.tx_buffer.len() == before.tx_buffer.len()
        &&& self.oversampling == before.oversampling
        &&& self.current_part == before.current_part
        &&& before.out_index <= self.out_index <= self.tx_buffer.len()
        &&& before.parts.len() <= self.parts.len()
        &&& self.parts@.take(before.parts.len() as int) == before.parts@
        &&& self.tx_buffer@.take(before.out_index as int) == before.written()
    }

    /// A picture that equals, as a picture, one that continues `before`
    /// continues `before` too.
    proof fn lemma_continues_same(&self, previous: Picture, before: Picture)
        requires
            previous.continues(before),
            self.out_index <= self.tx_buffer.len(),
            self@ == previous@,
        ensures
            self.continues(before),
    {
        assert(self.written().len() == self.out_index);
        assert(previous.written().len() == previous.out_index);
        assert(self.tx_buffer@.take(before.out_index as int) =~= self.written().take(
            before.out_index as int,
        ));
        assert(previous.tx_buffer@.take(before.out_index as int) =~= previous.written().take(
            before.out_index as int,
        ));
    }

    /// Appending a segment to a picture that continues `before` gives one that
    /// continues `before` too.
    proof fn lemma_continues_step(&self, previous: Picture, before: Picture, shape: Seq<u8>)
        requires
            previous.continues(before),
            self.out_index <= self.tx_buffer.len(),
            self@ == previous@.with_segment(shape),
        ensures
            self.continues(before),
    {
        assert(self.written().len() == self.out_index);
        assert(previous.written().len() == previous.out_index);
        assert(self.written() == previous.written() + shape);
        assert(self.tx_buffer@.take(before.out_index as int) =~= self.written().take(
            before.out_index as int,
        ));
        assert(previous.tx_buffer@.take(before.out_index as int) =~= previous.written().take(
            before.out_index as int,
        ));
        assert(self.written().take(before.out_index as int) =~= previous.written().take(
            before.out_index as int,
        ));
        assert(self.parts@.take(before.parts.len() as int) =~= previous.parts@.take(
            before.parts.len() as int,
        ));
    }

    /// Drops what was appended since the picture was `before`.
    fn rewind(&mut self, Ghost(before): Ghost<Picture>, out_index: usize, closed: usize)
        requires
            before.wf(),
            old(self).continues(before),
            out_index == before.out_index,
            closed == before.parts.len(),
        ensures
            final(self).wf(),
            final(self)@ == before@,
    {
        self.parts.truncate(closed);
        self.out_index = out_index;
        assert(self.parts@ =~= before.parts@);
    }

    /// The write cursor and the segments of the picture as it stands.
    pub fn static_part(&self) -> (meta: StaticPartMeta)
        requires
            self.wf(),
        ensures
            meta.wf(),
            meta.out_index == self.out_index,
            meta.parts@ == self.parts@,
    {
        StaticPartMeta { out_index: self.out_index, parts: copy_segments(&self.parts) }
    }

    /// A picture over `tx_buffer` that starts out with the write cursor and the
    /// segments of `meta`: the first `meta.out_index` bytes of the buffer are
    /// taken to hold the samples that `meta` was recorded for. A buffer that
    /// is shorter than that is handed back.
    pub fn resume(tx_buffer: Vec<u8>, meta: &StaticPartMeta, oversampling: Oversampling) -> (r:
        Result<Picture, Vec<u8>>)
        requires
            meta.wf(),
        ensures
            r is Ok <==> meta.out_index <= tx_buffer.len(),
            r matches Ok(picture) ==> picture.wf() && picture.tx_buffer == tx_buffer && picture@
                == meta.resumed(tx_buffer@, oversampling),
            r matches Err(buffer) ==> buffer == tx_buffer,
    {
        if meta.out_index > tx_buffer.len() {
            return Err(tx_buffer);
        }
        Ok(
            Picture {
                tx_buffer,
                out_index: meta.out_index,
                parts: copy_segments(&meta.parts),
                current_part: 0,
                oversampling,
            },
        )
    }

    /// Writing `second` behind a picture that is `before` with `first` written
    /// gives `before` with both written.
    proof fn lemma_extends_chain(
        &self,
        previous: Picture,
        before: Picture,
        first: Seq<u8>,
        second: Seq<u8>,
    )
        requires
            previous.extends(before, first),
            self.extends(previous, second),
        ensures
            self.extends(before, first + second),
    {
        assert(self.written() =~= before.written() + (first + second));
    }

    /// The segments of a well-formed picture cut what is written into ordered,
    /// consecutive ranges that do not overlap, and their lengths add up to the
    /// number of bytes written.
    pub proof fn lemma_segments_cover_written(&self)
        requires
            self.wf(),
        ensures
            covered(self@.segments) == self@.samples.len(),
            forall|i: int|
                0 <= i < self@.segments.len() ==> 0 <= (#[trigger] self@.segments[i]).0
                    <= self@.segments[i].1 <= self@.samples.len(),
            forall|i: int, j: int|
                0 <= i < j < self@.segments.len() ==> (#[trigger] self@.segments[i]).1 <= (
                #[trigger] self@.segments[j]).0,
            forall|i: int|
                0 <= i < self@.segments.len() - 1 ==> (#[trigger] self@.segments[i]).1
                    == self@.segments[i + 1].0,
    {
        lemma_segments_partition(self.parts@, self.out_index as int);
    }

    /// A picture is filled from front to back: whether a segment was appended
    /// or refused, what was written before is still there, and the write
    /// cursor has not moved back.
    pub proof fn lemma_appended_keeps_written(
        &self,
        before: Picture,
        shape: Seq<u8>,
        r: Result<(), PictureError>,
    )
        requires
            before.wf(),
            self.wf(),
            self.appended(before, shape, r),
        ensures
            before.out_index <= self.out_index,
            self.written().take(before.out_index as int) == before.written(),
            self.parts@.take(before.parts.len() as int) == before.parts@,
            self.tx_buffer.len() == before.tx_buffer.len(),
            self.current_part == before.current_part,
    {
        assert(self.written().len() == self.out_index);
        assert(before.written().len() == before.out_index);
        assert(self.written().take(before.out_index as int) =~= before.written());
        assert(self.parts@.take(before.parts.len() as int) =~= before.parts@);
    }

    /// What is written never exceeds the buffer.
    pub proof fn lemma_within_capacity(&self)
        requires
            self.wf(),
        ensures
            self@.fits(),
            self@.samples.len() == self.out_index,
            self.out_index <= self.tx_buffer.len(),
    {
    }

    /// The write cursor of a well-formed picture is a whole number of frames.
    pub proof fn lemma_cursor_aligned(&self)
        requires
            self.wf(),
        ensures
            self.out_index % 4 == 0,
    {
        if self.parts@.len() > 0 {
            assert(self.parts@[self.parts@.len() - 1].1 % 4 == 0);
        }
    }
}

/// `count` units of `per` bytes exceed `room` bytes exactly when `count` exceeds
/// the whole units that `room` holds.
proof fn lemma_fits_room(count: int, per: int, room: int)
    requires
        per == 4 || per == 8,
        0 <= count,
        0 <= room,
    ensures
        count > room / per <==> count * per > room,
{
    if per == 4 {
        assert(count * per == count * 4);
    } else {
        assert(count * per == count * 8);
    }
}

/// The first polylines of a glyph take no more bytes than the whole glyph.
pub proof fn lemma_polylines_prefix(view: PictureView, lines: Seq<Seq<Point>>, count: int)
    requires
        0 <= count <= lines.len(),
    ensures
        view.with_polylines(lines.take(count)).samples.len() <= view.with_polylines(
            lines,
        ).samples.len(),
        view.with_polylines(lines).capacity == view.capacity,
        view.with_polylines(lines).cursor == view.cursor,
        view.with_polylines(lines).oversampling == view.oversampling,
    decreases lines.len(),
{
    if count == lines.len() {
        assert(lines.take(count) =~= lines);
        if count > 0 {
            lemma_polylines_prefix(view, lines.drop_last(), count - 1);
        }
    } else {
        lemma_polylines_prefix(view, lines.drop_last(), count);
        assert(lines.drop_last().take(count) =~= lines.take(count));
    }
}

/// Appending polylines leaves at least the samples that were there.
pub proof fn lemma_polylines_grow(view: PictureView, lines: Seq<Seq<Point>>)
    ensures
        view.grows_to(view.with_polylines(lines)),
{
    lemma_polylines_prefix(view, lines, 0);
    assert(lines.take(0) =~= Seq::<Seq<Point>>::empty());
}

} // verus!
