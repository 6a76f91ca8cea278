//! The clock face composer: the unchanging part of the face, drawn once, and
//! the hands and the indicator, drawn for every frame behind it.

use crate::clock::{mark_at, mark_of, CivilTime, Indicator, Mark, DIAL_POSITIONS};
use crate::font::{anchor_in_range, can_anchor, Drawing};
use crate::picture::{
    lemma_polylines_grow, Picture, PictureError, PictureView, StaticPartMeta,
};
use crate::raster::{all_in_raster_range, can_rasterize, can_rasterize_all, in_raster_range};
use crate::sample::{Oversampling, Point};
use vstd::prelude::*;

verus! {

/// Scale at which the numbers of the hours are drawn.
pub const NUMERAL_SCALE: u16 = 18;

/// Scale at which the indicator is drawn.
pub const INDICATOR_SCALE: u16 = 15;

/// Repetitions of the dot at a minute mark.
pub const MINUTE_DOT_EXPOSURE: usize = 14;

/// Place in the font of the glyph for the first half of the day. The places
/// before it hold the numbers from 0 to 12.
pub const GLYPH_AM: usize = 13;

/// Place in the font of the glyph for the second half of the day.
pub const GLYPH_PM: usize = 14;

/// Glyphs that a font has to hold.
pub const GLYPH_COUNT: usize = 15;

/// Distance of a digit of the date from the indicator's place, sideways.
pub const DATE_COLUMN: isize = 8;

/// Distance of a row of the date from the indicator's place, up or down.
pub const DATE_ROW: isize = 10;

/// Largest magnitude of a coordinate at which the indicator can stand.
pub const INDICATOR_LIMIT: isize = 0x3fdf_ff00;

/// Channel values at which the beam rests between two frames.
pub const REST: (u8, u8) = (0, 0);

/// Where one position of the dial is marked.
pub struct MarkGeometry {
    /// The place of the dot of a minute mark.
    pub at: Point,
    /// The vertices of the ring of an hour mark.
    pub ring: Vec<Point>,
    /// The place of the number of an hour mark.
    pub numeral_at: Point,
}

/// Where the unchanging shapes of the face lie.
pub struct FaceGeometry {
    /// The vertices of the outer ring.
    pub bezel: Vec<Point>,
    /// The vertices of the ornament at the centre.
    pub hub: Vec<Point>,
    /// The marks of the dial, clockwise from the topmost.
    pub marks: Vec<MarkGeometry>,
}

/// Everything that a picture of the clock is drawn from, but the time.
pub struct ClockFace {
    pub geometry: FaceGeometry,
    /// The glyphs: the numbers from 0 to 12, then the two halves of the day.
    pub font: Vec<Drawing>,
    /// Resolution in which the geometry is given.
    pub oversampling: Oversampling,
}

/// Where the shapes lie that depend on the time.
pub struct Hands {
    /// The second hand, from its inner end to its outer end.
    pub second: (Point, Point),
    /// The outline of the minute hand.
    pub minute: Vec<Point>,
    /// The outline of the hour hand.
    pub hour: Vec<Point>,
    /// The place of the indicator.
    pub indicator_at: Point,
}

/// A reading of the wall clock and where the hands lie at it.
pub struct Reading {
    pub time: CivilTime,
    pub hands: Hands,
}

impl MarkGeometry {
    /// The ring can be rasterized and the number can be placed.
    pub open spec fn wf(&self) -> bool {
        &&& all_in_raster_range(self.ring@)
        &&& anchor_in_range(self.numeral_at.0, self.numeral_at.1)
    }
}

impl MarkGeometry {
    /// Whether the ring can be rasterized and the number can be placed.
    pub fn is_sound(&self) -> (ok: bool)
        ensures
            ok == self.wf(),
    {
        can_rasterize_all(self.ring.as_slice()) && can_anchor(self.numeral_at.0, self.numeral_at.1)
    }
}

impl ClockFace {
    /// There is a mark for each position of the dial and a glyph for each
    /// place of the font, and every shape can be rasterized.
    pub open spec fn wf(&self) -> bool {
        &&& all_in_raster_range(self.geometry.bezel@)
        &&& all_in_raster_range(self.geometry.hub@)
        &&& self.geometry.marks.len() == DIAL_POSITIONS
        &&& forall|i: int|
            0 <= i < self.geometry.marks.len() ==> (#[trigger] self.geometry.marks[i]).wf()
        &&& self.font.len() >= GLYPH_COUNT
    }

    /// Whether a picture can be drawn from this face.
    pub fn is_sound(&self) -> (ok: bool)
        ensures
            ok == self.wf(),
    {
        if !can_rasterize_all(self.geometry.bezel.as_slice()) || !can_rasterize_all(
            self.geometry.hub.as_slice(),
        ) || self.geometry.marks.len() != DIAL_POSITIONS as usize || self.font.len()
            < GLYPH_COUNT {
            return false;
        }
        let mut i: usize = 0;
        while i < self.geometry.marks.len()
            invariant
                i <= self.geometry.marks.len(),
                forall|k: int| 0 <= k < i ==> (#[trigger] self.geometry.marks[k]).wf(),
            decreases self.geometry.marks.len() - i,
        {
            if !self.geometry.marks[i].is_sound() {
                return false;
            }
            i += 1;
        }
        true
    }
}

impl Hands {
    /// Every shape can be rasterized and the indicator can be placed.
    pub open spec fn wf(&self) -> bool {
        &&& in_raster_range(self.second.0)
        &&& in_raster_range(self.second.1)
        &&& all_in_raster_range(self.minute@)
        &&& all_in_raster_range(self.hour@)
        &&& -INDICATOR_LIMIT <= self.indicator_at.0 <= INDICATOR_LIMIT
        &&& -INDICATOR_LIMIT <= self.indicator_at.1 <= INDICATOR_LIMIT
    }
}

impl Hands {
    /// Whether the hands and the indicator can be drawn.
    pub fn is_sound(&self) -> (ok: bool)
        ensures
            ok == self.wf(),
    {
        can_rasterize(self.second.0) && can_rasterize(self.second.1) && can_rasterize_all(
            self.minute.as_slice(),
        ) && can_rasterize_all(self.hour.as_slice()) && -INDICATOR_LIMIT <= self.indicator_at.0
            && self.indicator_at.0 <= INDICATOR_LIMIT && -INDICATOR_LIMIT <= self.indicator_at.1
            && self.indicator_at.1 <= INDICATOR_LIMIT
    }
}

impl Reading {
    /// The time is an instant and the hands can be drawn.
    pub open spec fn wf(&self) -> bool {
        &&& self.time.wf()
        &&& self.hands.wf()
    }

    /// Whether the reading can be drawn.
    pub fn is_sound(&self) -> (ok: bool)
        ensures
            ok == self.wf(),
    {
        self.time.is_sound() && self.hands.is_sound()
    }
}

/// The picture with one mark of the dial appended: for an hour the ring and
/// the glyph of its number, for a minute a dot.
pub open spec fn with_mark(
    view: PictureView,
    mark: MarkGeometry,
    kind: Mark,
    font: Seq<Drawing>,
) -> PictureView {
    match kind {
        Mark::Hour { number } => view.with_closed_polygon(mark.ring@).with_glyph(
            font,
            number as int,
            NUMERAL_SCALE,
            mark.numeral_at,
        ),
        Mark::Minute => view.with_dot(
            mark.at.0 as int,
            mark.at.1 as int,
            MINUTE_DOT_EXPOSURE as nat,
        ),
    }
}

/// The picture with the first `count` marks of the dial appended.
pub open spec fn with_marks(
    view: PictureView,
    marks: Seq<MarkGeometry>,
    font: Seq<Drawing>,
    count: nat,
) -> PictureView
    decreases count,
{
    if count == 0 {
        view
    } else {
        with_mark(
            with_marks(view, marks, font, (count - 1) as nat),
            marks[count - 1],
            mark_of(count - 1),
            font,
        )
    }
}

/// The picture with the unchanging part of the face appended: the outer ring,
/// the ornament at the centre and the sixty marks.
pub open spec fn static_face(view: PictureView, face: ClockFace) -> PictureView {
    with_marks(
        view.with_closed_polygon(face.geometry.bezel@).with_closed_polygon(face.geometry.hub@),
        face.geometry.marks@,
        face.font@,
        DIAL_POSITIONS as nat,
    )
}

/// The place of one of the four digits of the date: the day in the upper row,
/// the month in the lower, tens to the left.
pub open spec fn date_place(at: Point, upper: bool, left: bool) -> Point {
    (
        (if left {
            at.0 - DATE_COLUMN
        } else {
            at.0 + DATE_COLUMN
        }) as isize,
        (if upper {
            at.1 + DATE_ROW
        } else {
            at.1 - DATE_ROW
        }) as isize,
    )
}

/// The picture with the indicator appended: the glyph of the half of the day,
/// or the two digits of the day above the two digits of the month.
pub open spec fn with_indicator(
    view: PictureView,
    shown: Indicator,
    at: Point,
    font: Seq<Drawing>,
) -> PictureView {
    match shown {
        Indicator::Meridiem { pm } => view.with_glyph(
            font,
            if pm {
                GLYPH_PM as int
            } else {
                GLYPH_AM as int
            },
            INDICATOR_SCALE,
            at,
        ),
        Indicator::Date { day, month } => view.with_glyph(
            font,
            (day / 10) as int,
            INDICATOR_SCALE,
            date_place(at, true, true),
        ).with_glyph(font, (day % 10) as int, INDICATOR_SCALE, date_place(at, true, false))
            .with_glyph(
            font,
            (month / 10) as int,
            INDICATOR_SCALE,
            date_place(at, false, true),
        ).with_glyph(font, (month % 10) as int, INDICATOR_SCALE, date_place(at, false, false)),
    }
}

/// The picture with the hands and the indicator of a reading appended.
pub open spec fn with_hands(
    view: PictureView,
    reading: Reading,
    font: Seq<Drawing>,
) -> PictureView {
    with_indicator(
        view.with_line(reading.hands.second.0, reading.hands.second.1).with_closed_polygon(
            reading.hands.minute@,
        ).with_closed_polygon(reading.hands.hour@),
        reading.time.indicator(),
        reading.hands.indicator_at,
        font,
    )
}

/// The picture with the changing part of the face appended: the hands and the
/// indicator where there is a reading, and the point at which the beam rests.
pub open spec fn dynamic_face(
    view: PictureView,
    reading: Option<Reading>,
    font: Seq<Drawing>,
) -> PictureView {
    (match reading {
        Some(reading) => with_hands(view, reading, font),
        None => view,
    }).with_raw_point(REST.0, REST.1)
}

/// How composing towards `target` ended: on success, exactly when `target`
/// fits its buffer, the picture is `target`; on failure the buffer has the
/// size it had.
pub open spec fn composed(
    after: Picture,
    before: Picture,
    target: PictureView,
    r: Result<(), PictureError>,
) -> bool {
    &&& r is Ok <==> target.fits()
    &&& r is Ok ==> after@ == target
    &&& r is Err ==> after.tx_buffer.len() == before.tx_buffer.len() && r == Err::<
        (),
        PictureError,
    >(PictureError::CapacityExceeded)
}

/// A mark leaves at least the samples that were there.
pub proof fn lemma_mark_grows(
    view: PictureView,
    mark: MarkGeometry,
    kind: Mark,
    font: Seq<Drawing>,
)
    ensures
        view.grows_to(with_mark(view, mark, kind, font)),
{
    match kind {
        Mark::Hour { number } => {
            lemma_polylines_grow(
                view.with_closed_polygon(mark.ring@),
                font[number as int].placed_lines(
                    NUMERAL_SCALE,
                    mark.numeral_at.0,
                    mark.numeral_at.1,
                ),
            );
        },
        Mark::Minute => {},
    }
}

/// More marks leave at least the samples of fewer marks.
pub proof fn lemma_marks_grow(
    view: PictureView,
    marks: Seq<MarkGeometry>,
    font: Seq<Drawing>,
    fewer: nat,
    more: nat,
)
    requires
        fewer <= more,
    ensures
        with_marks(view, marks, font, fewer).grows_to(with_marks(view, marks, font, more)),
    decreases more,
{
    if fewer < more {
        lemma_marks_grow(view, marks, font, fewer, (more - 1) as nat);
        lemma_mark_grows(
            with_marks(view, marks, font, (more - 1) as nat),
            marks[more - 1],
            mark_of(more - 1),
            font,
        );
    }
}

/// The unchanging part of the face leaves at least the samples that were
/// there.
pub proof fn lemma_static_face_grows(view: PictureView, face: ClockFace)
    ensures
        view.grows_to(static_face(view, face)),
        view.with_closed_polygon(face.geometry.bezel@).grows_to(static_face(view, face)),
        view.with_closed_polygon(face.geometry.bezel@).with_closed_polygon(
            face.geometry.hub@,
        ).grows_to(static_face(view, face)),
{
    lemma_marks_grow(
        view.with_closed_polygon(face.geometry.bezel@).with_closed_polygon(face.geometry.hub@),
        face.geometry.marks@,
        face.font@,
        0,
        DIAL_POSITIONS as nat,
    );
}

/// The indicator leaves at least the samples that were there, and so does
/// each of the glyphs that it is made of.
pub proof fn lemma_indicator_grows(
    view: PictureView,
    shown: Indicator,
    at: Point,
    font: Seq<Drawing>,
)
    ensures
        view.grows_to(with_indicator(view, shown, at, font)),
        shown matches Indicator::Date { day, month } ==> {
            let first = view.with_glyph(
                font,
                (day / 10) as int,
                INDICATOR_SCALE,
                date_place(at, true, true),
            );
            let second = first.with_glyph(
                font,
                (day % 10) as int,
                INDICATOR_SCALE,
                date_place(at, true, false),
            );
            let third = second.with_glyph(
                font,
                (month / 10) as int,
                INDICATOR_SCALE,
                date_place(at, false, true),
            );
            &&& first.grows_to(with_indicator(view, shown, at, font))
            &&& second.grows_to(with_indicator(view, shown, at, font))
            &&& third.grows_to(with_indicator(view, shown, at, font))
        },
{
    match shown {
        Indicator::Meridiem { pm } => {
            let index = if pm {
                GLYPH_PM as int
            } else {
                GLYPH_AM as int
            };
            lemma_polylines_grow(view, font[index].placed_lines(INDICATOR_SCALE, at.0, at.1));
        },
        Indicator::Date { day, month } => {
            let p1 = date_place(at, true, true);
            let p2 = date_place(at, true, false);
            let p3 = date_place(at, false, true);
            let p4 = date_place(at, false, false);
            let first = view.with_glyph(font, (day / 10) as int, INDICATOR_SCALE, p1);
            let second = first.with_glyph(font, (day % 10) as int, INDICATOR_SCALE, p2);
            let third = second.with_glyph(font, (month / 10) as int, INDICATOR_SCALE, p3);
            lemma_polylines_grow(
                view,
                font[(day / 10) as int].placed_lines(INDICATOR_SCALE, p1.0, p1.1),
            );
            lemma_polylines_grow(
                first,
                font[(day % 10) as int].placed_lines(INDICATOR_SCALE, p2.0, p2.1),
            );
            lemma_polylines_grow(
                second,
                font[(month / 10) as int].placed_lines(INDICATOR_SCALE, p3.0, p3.1),
            );
            lemma_polylines_grow(
                third,
                font[(month % 10) as int].placed_lines(INDICATOR_SCALE, p4.0, p4.1),
            );
        },
    }
}

/// The changing part of the face leaves at least the samples that were there.
pub proof fn lemma_dynamic_face_grows(
    view: PictureView,
    reading: Option<Reading>,
    font: Seq<Drawing>,
)
    ensures
        view.grows_to(dynamic_face(view, reading, font)),
        reading matches Some(r) ==> {
            let second = view.with_line(r.hands.second.0, r.hands.second.1);
            let minute = second.with_closed_polygon(r.hands.minute@);
            let hour = minute.with_closed_polygon(r.hands.hour@);
            &&& second.grows_to(dynamic_face(view, reading, font))
            &&& minute.grows_to(dynamic_face(view, reading, font))
            &&& hour.grows_to(dynamic_face(view, reading, font))
            &&& with_hands(view, r, font).grows_to(dynamic_face(view, reading, font))
        },
{
    match reading {
        Some(r) => {
            let hour = view.with_line(r.hands.second.0, r.hands.second.1).with_closed_polygon(
                r.hands.minute@,
            ).with_closed_polygon(r.hands.hour@);
            lemma_indicator_grows(hour, r.time.indicator(), r.hands.indicator_at, font);
        },
        None => {},
    }
}

/// Draws the glyph at place `index` of the font.
fn draw_glyph(pic: &mut Picture, font: &Vec<Drawing>, index: usize, scale: u16, at: Point) -> (r:
    Result<(), PictureError>)
    requires
        old(pic).wf(),
        index < font.len(),
        anchor_in_range(at.0, at.1),
    ensures
        final(pic).wf(),
        final(pic).reached(*old(pic), old(pic)@.with_glyph(font@, index as int, scale, at), r),
{
    pic.draw_font(&font[index], scale, at.0, at.1)
}

/// Draws one mark of the dial.
fn draw_mark(pic: &mut Picture, mark: &MarkGeometry, kind: Mark, font: &Vec<Drawing>) -> (r:
    Result<(), PictureError>)
    requires
        old(pic).wf(),
        mark.wf(),
        font.len() >= GLYPH_COUNT,
        kind matches Mark::Hour { number } ==> number <= 12,
    ensures
        final(pic).wf(),
        composed(*final(pic), *old(pic), with_mark(old(pic)@, *mark, kind, font@), r),
{
    match kind {
        Mark::Hour { number } => {
            proof {
                lemma_mark_grows(old(pic)@, *mark, kind, font@);
                lemma_polylines_grow(
                    old(pic)@.with_closed_polygon(mark.ring@),
                    font@[number as int].placed_lines(
                        NUMERAL_SCALE,
                        mark.numeral_at.0,
                        mark.numeral_at.1,
                    ),
                );
            }
            match pic.add_closed_polygon(mark.ring.as_slice()) {
                Err(e) => Err(e),
                Ok(()) => draw_glyph(pic, font, number as usize, NUMERAL_SCALE, mark.numeral_at),
            }
        },
        Mark::Minute => pic.add_dot2(mark.at, MINUTE_DOT_EXPOSURE),
    }
}

/// Draws the unchanging part of the face.
fn draw_static(pic: &mut Picture, face: &ClockFace) -> (r: Result<(), PictureError>)
    requires
        old(pic).wf(),
        face.wf(),
    ensures
        final(pic).wf(),
        composed(*final(pic), *old(pic), static_face(old(pic)@, *face), r),
{
    proof {
        lemma_static_face_grows(old(pic)@, *face);
    }
    match pic.add_closed_polygon(face.geometry.bezel.as_slice()) {
        Err(e) => {
            return Err(e);
        },
        Ok(()) => {},
    }
    match pic.add_closed_polygon(face.geometry.hub.as_slice()) {
        Err(e) => {
            return Err(e);
        },
        Ok(()) => {},
    }
    let ghost ringed = pic@;
    let mut position: u8 = 0;
    while position < DIAL_POSITIONS
        invariant
            position <= DIAL_POSITIONS,
            face.wf(),
            pic.wf(),
            pic.tx_buffer.len() == old(pic).tx_buffer.len(),
            ringed == old(pic)@.with_closed_polygon(face.geometry.bezel@).with_closed_polygon(
                face.geometry.hub@,
            ),
            pic@ == with_marks(ringed, face.geometry.marks@, face.font@, position as nat),
        decreases DIAL_POSITIONS - position,
    {
        let kind = mark_at(position);
        proof {
            lemma_marks_grow(
                ringed,
                face.geometry.marks@,
                face.font@,
                (position + 1) as nat,
                DIAL_POSITIONS as nat,
            );
            lemma_mark_grows(pic@, face.geometry.marks@[position as int], kind, face.font@);
        }
        match draw_mark(pic, &face.geometry.marks[position as usize], kind, &face.font) {
            Err(e) => {
                return Err(e);
            },
            Ok(()) => {},
        }
        position += 1;
    }
    Ok(())
}

/// Draws the indicator.
fn draw_indicator(pic: &mut Picture, shown: Indicator, at: Point, font: &Vec<Drawing>) -> (r:
    Result<(), PictureError>)
    requires
        old(pic).wf(),
        font.len() >= GLYPH_COUNT,
        -INDICATOR_LIMIT <= at.0 <= INDICATOR_LIMIT,
        -INDICATOR_LIMIT <= at.1 <= INDICATOR_LIMIT,
        shown matches Indicator::Date { day, month } ==> day < 100 && month < 100,
    ensures
        final(pic).wf(),
        composed(*final(pic), *old(pic), with_indicator(old(pic)@, shown, at, font@), r),
{
    proof {
        lemma_indicator_grows(old(pic)@, shown, at, font@);
    }
    match shown {
        Indicator::Meridiem { pm } => {
            let index = if pm {
                GLYPH_PM
            } else {
                GLYPH_AM
            };
            draw_glyph(pic, font, index, INDICATOR_SCALE, at)
        },
        Indicator::Date { day, month } => {
            let left = at.0 - DATE_COLUMN;
            let right = at.0 + DATE_COLUMN;
            let upper = at.1 + DATE_ROW;
            let lower = at.1 - DATE_ROW;
            match draw_glyph(pic, font, (day / 10) as usize, INDICATOR_SCALE, (left, upper)) {
                Err(e) => {
                    return Err(e);
                },
                Ok(()) => {},
            }
            match draw_glyph(pic, font, (day % 10) as usize, INDICATOR_SCALE, (right, upper)) {
                Err(e) => {
                    return Err(e);
                },
                Ok(()) => {},
            }
            match draw_glyph(pic, font, (month / 10) as usize, INDICATOR_SCALE, (left, lower)) {
                Err(e) => {
                    return Err(e);
                },
                Ok(()) => {},
            }
            draw_glyph(pic, font, (month % 10) as usize, INDICATOR_SCALE, (right, lower))
        },
    }
}

/// Draws the changing part of the face.
fn draw_dynamic(pic: &mut Picture, reading: &Option<Reading>, font: &Vec<Drawing>) -> (r: Result<
    (),
    PictureError,
>)
    requires
        old(pic).wf(),
        font.len() >= GLYPH_COUNT,
        reading matches Some(r) ==> r.wf(),
    ensures
        final(pic).wf(),
        composed(*final(pic), *old(pic), dynamic_face(old(pic)@, *reading, font@), r),
{
    proof {
        lemma_dynamic_face_grows(old(pic)@, *reading, font@);
    }
    match reading {
        Some(reading) => {
            match pic.add_line(reading.hands.second.0, reading.hands.second.1) {
                Err(e) => {
                    return Err(e);
                },
                Ok(()) => {},
            }
            match pic.add_closed_polygon(reading.hands.minute.as_slice()) {
                Err(e) => {
                    return Err(e);
                },
                Ok(()) => {},
            }
            match pic.add_closed_polygon(reading.hands.hour.as_slice()) {
                Err(e) => {
                    return Err(e);
                },
                Ok(()) => {},
            }
            let shown = reading.time.select_indicator();
            match draw_indicator(pic, shown, reading.hands.indicator_at, font) {
                Err(e) => {
                    return Err(e);
                },
                Ok(()) => {},
            }
        },
        None => {},
    }
    pic.add_raw_point(REST.0, REST.1)
}

/// A buffer that could not be made into a picture, and why.
pub struct Refused {
    pub reason: PictureError,
    pub tx_buffer: Vec<u8>,
}

/// Whether `meta` records the unchanging part of `face`, drawn into an empty
/// buffer of `capacity` bytes.
pub open spec fn is_static_part(meta: StaticPartMeta, face: ClockFace, capacity: nat) -> bool {
    let target = static_face(PictureView::empty(capacity, face.oversampling), face);
    &&& meta.out_index == target.samples.len()
    &&& meta.parts@ == target.segments
}

/// Draws the unchanging part of the face into `tx_buffer`, from its first
/// byte on, and records where it ends and which segments it has. The buffer
/// comes back in either case.
pub fn prepare_static_part(tx_buffer: Vec<u8>, face: &ClockFace) -> (r: (
    Vec<u8>,
    Result<StaticPartMeta, PictureError>,
))
    requires
        face.wf(),
    ensures
        r.0.len() == tx_buffer.len(),
        r.1 is Ok <==> static_face(
            PictureView::empty(tx_buffer.len() as nat, face.oversampling),
            *face,
        ).fits(),
        r.1 matches Ok(meta) ==> {
            &&& meta.wf()
            &&& is_static_part(meta, *face, tx_buffer.len() as nat)
            &&& meta.out_index <= r.0.len()
            &&& r.0@.take(meta.out_index as int) == static_face(
                PictureView::empty(tx_buffer.len() as nat, face.oversampling),
                *face,
            ).samples
        },
        r.1 matches Err(e) ==> e == PictureError::CapacityExceeded,
{
    let mut pic = Picture::with_oversampling(tx_buffer, face.oversampling);
    proof {
        lemma_static_face_grows(pic@, *face);
    }
    match draw_static(&mut pic, face) {
        Ok(()) => {
            let meta = pic.static_part();
            (pic.tx_buffer, Ok(meta))
        },
        Err(e) => (pic.tx_buffer, Err(e)),
    }
}

/// A picture of the clock over a buffer that already holds the unchanging
/// part of the face: it starts out from `static_part_meta`, and the hands, the
/// indicator and the resting point are appended. Without a reading only the
/// resting point is.
pub fn draw_dynamic_part(
    tx_buffer: Vec<u8>,
    static_part_meta: &StaticPartMeta,
    face: &ClockFace,
    reading: &Option<Reading>,
) -> (r: Result<Picture, Refused>)
    requires
        static_part_meta.wf(),
        face.wf(),
        reading matches Some(r) ==> r.wf(),
    ensures
        r is Ok <==> static_part_meta.out_index <= tx_buffer.len() && dynamic_face(
            static_part_meta.resumed(tx_buffer@, face.oversampling),
            *reading,
            face.font@,
        ).fits(),
        r matches Ok(picture) ==> picture.wf() && picture@ == dynamic_face(
            static_part_meta.resumed(tx_buffer@, face.oversampling),
            *reading,
            face.font@,
        ),
        r matches Err(refused) ==> refused.reason == PictureError::CapacityExceeded
            && refused.tx_buffer.len() == tx_buffer.len(),
{
    match Picture::resume(tx_buffer, static_part_meta, face.oversampling) {
        Err(tx_buffer) => Err(Refused { reason: PictureError::CapacityExceeded, tx_buffer }),
        Ok(mut pic) => {
            match draw_dynamic(&mut pic, reading, &face.font) {
                Ok(()) => Ok(pic),
                Err(reason) => Err(Refused { reason, tx_buffer: pic.tx_buffer }),
            }
        },
    }
}

/// A picture of the whole clock, drawn into `tx_buffer` from its first byte
/// on: the unchanging part of the face, then the changing part.
pub fn draw_analog_clock(tx_buffer: Vec<u8>, face: &ClockFace, reading: &Option<Reading>) -> (r:
    Result<Picture, Refused>)
    requires
        face.wf(),
        reading matches Some(r) ==> r.wf(),
    ensures
        r is Ok <==> dynamic_face(
            static_face(PictureView::empty(tx_buffer.len() as nat, face.oversampling), *face),
            *reading,
            face.font@,
        ).fits(),
        r matches Ok(picture) ==> picture.wf() && picture@ == dynamic_face(
            static_face(PictureView::empty(tx_buffer.len() as nat, face.oversampling), *face),
            *reading,
            face.font@,
        ),
        r matches Err(refused) ==> refused.reason == PictureError::CapacityExceeded
            && refused.tx_buffer.len() == tx_buffer.len(),
{
    let mut pic = Picture::with_oversampling(tx_buffer, face.oversampling);
    proof {
        lemma_static_face_grows(pic@, *face);
        lemma_dynamic_face_grows(static_face(pic@, *face), *reading, face.font@);
    }
    match draw_static(&mut pic, face) {
        Err(reason) => {
            return Err(Refused { reason, tx_buffer: pic.tx_buffer });
        },
        Ok(()) => {},
    }
    match draw_dynamic(&mut pic, reading, &face.font) {
        Ok(()) => Ok(pic),
        Err(reason) => Err(Refused { reason, tx_buffer: pic.tx_buffer }),
    }
}

/// Drawing the unchanging part of the same face into buffers of the same size
/// gives the same record, whatever the buffers held.
pub proof fn lemma_static_part_is_determined(
    face: ClockFace,
    capacity: nat,
    first: StaticPartMeta,
    second: StaticPartMeta,
)
    requires
        is_static_part(first, face, capacity),
        is_static_part(second, face, capacity),
    ensures
        first.out_index == second.out_index,
        first.parts@ == second.parts@,
{
}

} // verus!
