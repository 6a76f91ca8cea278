use scopeclock::buffers::BufferId;
use scopeclock::clock::CivilTime;
use scopeclock::face::{
    draw_analog_clock, draw_dynamic_part, prepare_static_part, ClockFace, FaceGeometry, Hands,
    MarkGeometry, Reading,
};
use scopeclock::font::Drawing;
use scopeclock::picture::{PictureError, StaticPartMeta};
use scopeclock::raster::COORD_LIMIT;
use scopeclock::sample::Oversampling;
use scopeclock::startup::{draw_picture, scopeclock_init};

/// Points of the unchanging part of the test face.
const STATIC_POINTS: usize = 40 + 12 + 12 * 6 + 18 * 90 + 48 * 14;

/// Segments of the unchanging part of the test face.
const STATIC_SEGMENTS: usize = 2 + 12 * 2 + 48;

/// A glyph of one stroke that is `place + 1` steps long at scale 1.
fn glyph(place: usize) -> Drawing {
    Drawing { lines: vec![vec![(0, 0), ((1024 * (place + 1)) as i16, 0)]] }
}

fn face(oversampling: Oversampling) -> ClockFace {
    let marks = (0..60)
        .map(|i| MarkGeometry {
            at: (100 + i, 300 - i),
            ring: vec![(20, 20), (22, 20), (22, 22)],
            numeral_at: (50 + i, 50),
        })
        .collect();
    ClockFace {
        geometry: FaceGeometry {
            bezel: vec![(0, 0), (10, 0), (10, 10), (0, 10)],
            hub: vec![(0, 0), (4, 0), (0, 4)],
            marks,
        },
        font: (0..15).map(glyph).collect(),
        oversampling,
    }
}

fn reading(hour: u32, second: u32) -> Reading {
    Reading {
        time: CivilTime::from_fields(hour, 20, second, 0, 24, 12).unwrap(),
        hands: Hands {
            second: ((100, 100), (100, 150)),
            minute: vec![(0, 0), (5, 5), (0, 10), (-5, 5)],
            hour: vec![(0, 0), (3, 3), (0, 6), (-3, 3)],
            indicator_at: (200, 200),
        },
    }
}

fn segments_partition(parts: &[(usize, usize)], total: usize) -> bool {
    let mut at = 0;
    for &(start, end) in parts {
        if start != at || end < start {
            return false;
        }
        at = end;
    }
    at == total
}

#[test]
fn static_part_holds_ring_ornament_and_marks() {
    let (buffer, meta) = prepare_static_part(vec![0; 50_000], &face(Oversampling::Double));
    let meta = meta.unwrap();
    assert_eq!(buffer.len(), 50_000);
    assert_eq!(meta.out_index, 8 * STATIC_POINTS);
    assert_eq!(meta.parts.len(), STATIC_SEGMENTS);
    assert!(segments_partition(&meta.parts, meta.out_index));
    assert_eq!(meta.parts[0], (0, 320));
    assert_eq!(meta.parts[1], (320, 416));
    // The topmost mark: a ring, then the twelve.
    assert_eq!(meta.parts[2], (416, 464));
    assert_eq!(meta.parts[3], (464, 464 + 8 * 18 * 13));
    // The first minute mark: a dot at (101, 299).
    let dot = meta.parts[4];
    assert_eq!(dot.1 - dot.0, 8 * 14);
    assert_eq!(&buffer[dot.0..dot.0 + 8], &[0, 50, 0, 149, 0, 51, 0, 150]);
    // The mark of the one: a ring, then a stroke of two times eighteen steps from (55, 50) on.
    let one = meta.parts[9];
    assert_eq!(one.1 - one.0, 8 * 18 * 2);
    assert_eq!(&buffer[one.0..one.0 + 8], &[0, 27, 0, 25, 0, 28, 0, 25]);
}

#[test]
fn static_part_is_the_same_whatever_the_buffer_held() {
    let face = face(Oversampling::Double);
    let (first_buffer, first) = prepare_static_part(vec![0; 50_000], &face);
    let (second_buffer, second) = prepare_static_part(vec![0xff; 50_000], &face);
    let (first, second) = (first.unwrap(), second.unwrap());
    assert_eq!(first.out_index, second.out_index);
    assert_eq!(first.parts, second.parts);
    assert_eq!(&first_buffer[..first.out_index], &second_buffer[..second.out_index]);
    assert_eq!(&second_buffer[second.out_index..], &vec![0xff; 50_000 - second.out_index][..]);
    let (third_buffer, third) = prepare_static_part(first_buffer.clone(), &face);
    assert_eq!(third.unwrap().parts, first.parts);
    assert_eq!(third_buffer, first_buffer);
}

#[test]
fn static_part_in_native_resolution_takes_half_the_bytes() {
    let (_, meta) = prepare_static_part(vec![0; 50_000], &face(Oversampling::Native));
    let meta = meta.unwrap();
    assert_eq!(meta.out_index, 4 * STATIC_POINTS);
    assert_eq!(meta.parts.len(), STATIC_SEGMENTS);
}

#[test]
fn static_part_that_does_not_fit_is_refused() {
    let (buffer, meta) = prepare_static_part(vec![0; 8 * STATIC_POINTS - 1], &face(Oversampling::Double));
    assert_eq!(meta.err(), Some(PictureError::CapacityExceeded));
    assert_eq!(buffer.len(), 8 * STATIC_POINTS - 1);
    let (_, meta) = prepare_static_part(vec![0; 8 * STATIC_POINTS], &face(Oversampling::Double));
    assert!(meta.is_ok());
    let (_, meta) = prepare_static_part(vec![0; 100], &face(Oversampling::Double));
    assert_eq!(meta.err(), Some(PictureError::CapacityExceeded));
    let (_, meta) = prepare_static_part(Vec::new(), &face(Oversampling::Double));
    assert_eq!(meta.err(), Some(PictureError::CapacityExceeded));
}

#[test]
fn without_a_reading_only_the_beam_is_parked() {
    let face = face(Oversampling::Double);
    let (buffer, meta) = prepare_static_part(vec![0xee; 50_000], &face);
    let meta = meta.unwrap();
    let pic = draw_dynamic_part(buffer.clone(), &meta, &face, &None).ok().unwrap();
    assert_eq!(pic.out_index, meta.out_index + 4);
    assert_eq!(pic.parts.len(), STATIC_SEGMENTS + 1);
    assert_eq!(&pic.parts[..STATIC_SEGMENTS], &meta.parts[..]);
    assert_eq!(pic.parts[STATIC_SEGMENTS], (meta.out_index, meta.out_index + 4));
    assert_eq!(&pic.tx_buffer[meta.out_index..meta.out_index + 4], &[0, 0, 0, 0]);
    assert_eq!(&pic.tx_buffer[..meta.out_index], &buffer[..meta.out_index]);
    assert_eq!(pic.current_part, 0);
}

#[test]
fn half_of_the_day_is_one_glyph() {
    let face = face(Oversampling::Double);
    let (buffer, meta) = prepare_static_part(vec![0; 50_000], &face);
    let meta = meta.unwrap();
    let pic = draw_dynamic_part(buffer, &meta, &face, &Some(reading(14, 2))).ok().unwrap();
    let dynamic: Vec<usize> = pic.parts[STATIC_SEGMENTS..].iter().map(|s| (s.1 - s.0) / 8).collect();
    // Second hand, minute hand, hour hand, the glyph at place 14, and the resting point.
    assert_eq!(dynamic, vec![50, 20, 12, 15 * 15, 0]);
    let last = pic.parts[pic.parts.len() - 1];
    assert_eq!(last.1 - last.0, 4);
    assert!(segments_partition(&pic.parts, pic.out_index));
    let glyph = pic.parts[STATIC_SEGMENTS + 3];
    assert_eq!(&pic.tx_buffer[glyph.0..glyph.0 + 8], &[0, 100, 0, 100, 0, 100, 0, 100]);
    let morning = draw_dynamic_part(vec![0; 50_000], &meta, &face, &Some(reading(9, 2))).ok().unwrap();
    let glyph = morning.parts[STATIC_SEGMENTS + 3];
    assert_eq!((glyph.1 - glyph.0) / 8, 14 * 15);
}

#[test]
fn date_is_four_digits_in_two_rows() {
    let face = face(Oversampling::Double);
    let (buffer, meta) = prepare_static_part(vec![0; 50_000], &face);
    let meta = meta.unwrap();
    let pic = draw_dynamic_part(buffer, &meta, &face, &Some(reading(14, 7))).ok().unwrap();
    let dynamic: Vec<usize> = pic.parts[STATIC_SEGMENTS..].iter().map(|s| (s.1 - s.0) / 8).collect();
    // The day 24 above the month 12: glyphs at the places 2, 4, 1 and 2.
    assert_eq!(dynamic, vec![50, 20, 12, 3 * 15, 5 * 15, 2 * 15, 3 * 15, 0]);
    let starts: Vec<&[u8]> = (3..7)
        .map(|k| {
            let s = pic.parts[STATIC_SEGMENTS + k];
            &pic.tx_buffer[s.0..s.0 + 4]
        })
        .collect();
    assert_eq!(starts, vec![&[0, 96, 0, 105][..], &[0, 104, 0, 105], &[0, 96, 0, 95], &[0, 104, 0, 95]]);
    assert!(segments_partition(&pic.parts, pic.out_index));
}

#[test]
fn dynamic_part_that_does_not_fit_hands_the_buffer_back() {
    let face = face(Oversampling::Double);
    let (buffer, meta) = prepare_static_part(vec![0; 8 * STATIC_POINTS + 3], &face);
    let meta = meta.unwrap();
    let refused = draw_dynamic_part(buffer, &meta, &face, &None).err().unwrap();
    assert_eq!(refused.reason, PictureError::CapacityExceeded);
    assert_eq!(refused.tx_buffer.len(), 8 * STATIC_POINTS + 3);
    let refused = draw_dynamic_part(vec![0; 10], &meta, &face, &None).err().unwrap();
    assert_eq!(refused.tx_buffer.len(), 10);
    let room = 8 * STATIC_POINTS + 8 * (50 + 20 + 12 + 225) + 4;
    assert!(draw_dynamic_part(vec![0; room], &meta, &face, &Some(reading(14, 2))).is_ok());
    let refused = draw_dynamic_part(vec![0; room - 1], &meta, &face, &Some(reading(14, 2))).err().unwrap();
    assert_eq!(refused.reason, PictureError::CapacityExceeded);
    assert_eq!(refused.tx_buffer.len(), room - 1);
    assert!(draw_dynamic_part(vec![0; room - 1], &meta, &face, &Some(reading(9, 2))).is_ok());
}

#[test]
fn dynamic_part_starts_from_any_sound_record() {
    let face = face(Oversampling::Native);
    let meta = StaticPartMeta { out_index: 8, parts: vec![(0, 4), (4, 8)] };
    let pic = draw_picture(vec![9; 12], &meta, &face, &None).ok().unwrap();
    assert_eq!(pic.parts, vec![(0, 4), (4, 8), (8, 12)]);
    assert_eq!(pic.tx_buffer, vec![9, 9, 9, 9, 9, 9, 9, 9, 0, 0, 0, 0]);
    let empty = StaticPartMeta { out_index: 0, parts: vec![] };
    let pic = draw_picture(vec![9; 4], &empty, &face, &None).ok().unwrap();
    assert_eq!(pic.parts, vec![(0, 4)]);
}

#[test]
fn whole_clock_is_static_part_then_dynamic_part() {
    let face = face(Oversampling::Double);
    let whole = draw_analog_clock(vec![0; 50_000], &face, &Some(reading(14, 7))).ok().unwrap();
    let (buffer, meta) = prepare_static_part(vec![0; 50_000], &face);
    let meta = meta.unwrap();
    let staged = draw_dynamic_part(buffer, &meta, &face, &Some(reading(14, 7))).ok().unwrap();
    assert_eq!(whole.parts, staged.parts);
    assert_eq!(whole.out_index, staged.out_index);
    assert_eq!(whole.tx_buffer, staged.tx_buffer);
    assert!(whole.out_index <= whole.tx_buffer.len());
    let refused = draw_analog_clock(vec![0; 1000], &face, &None).err().unwrap();
    assert_eq!(refused.reason, PictureError::CapacityExceeded);
    assert_eq!(refused.tx_buffer.len(), 1000);
    let refused = draw_analog_clock(vec![0; 8 * STATIC_POINTS + 3], &face, &None).err().unwrap();
    assert_eq!(refused.tx_buffer.len(), 8 * STATIC_POINTS + 3);
}

#[test]
fn display_comes_up_with_a_picture_in_either_buffer() {
    let face = face(Oversampling::Double);
    let display = scopeclock_init(vec![1; 50_000], vec![2; 40_000], &face, &None).ok().unwrap();
    assert_eq!(display.static_part_meta.out_index, 8 * STATIC_POINTS);
    assert_eq!(display.static_part_meta.parts.len(), STATIC_SEGMENTS);
    let buffers = display.buffers;
    assert_eq!(buffers.current_buffer, BufferId::First);
    assert_eq!(buffers.current_display.tx_buffer.len(), 40_000);
    assert_eq!(buffers.current_display.out_index, 8 * STATIC_POINTS + 4);
    let next = buffers.next_display.unwrap();
    assert_eq!(next.tx_buffer.len(), 50_000);
    assert_eq!(next.parts, buffers.current_display.parts);
    assert_eq!(&next.tx_buffer[..next.out_index], &buffers.current_display.tx_buffer[..next.out_index]);
    assert!(buffers.canvas.is_none());
}

#[test]
fn display_does_not_come_up_on_a_buffer_that_is_too_small() {
    let face = face(Oversampling::Double);
    let fits = 8 * STATIC_POINTS + 4;
    assert!(scopeclock_init(vec![0; fits], vec![0; fits], &face, &None).is_ok());
    assert_eq!(
        scopeclock_init(vec![0; fits - 1], vec![0; fits], &face, &None).err(),
        Some(PictureError::CapacityExceeded)
    );
    assert_eq!(
        scopeclock_init(vec![0; fits], vec![0; fits - 4], &face, &None).err(),
        Some(PictureError::CapacityExceeded)
    );
    assert_eq!(
        scopeclock_init(vec![0; fits], vec![0; 16], &face, &Some(reading(1, 1))).err(),
        Some(PictureError::CapacityExceeded)
    );
}

#[test]
fn faces_and_readings_are_checked_for_soundness() {
    assert!(face(Oversampling::Double).is_sound());
    assert!(reading(1, 1).is_sound());

    let mut short = face(Oversampling::Double);
    short.geometry.marks.pop();
    assert!(!short.is_sound());

    let mut mute = face(Oversampling::Double);
    mute.font.pop();
    assert!(!mute.is_sound());

    let mut far = face(Oversampling::Double);
    far.geometry.bezel[2].0 = COORD_LIMIT + 1;
    assert!(!far.is_sound());
    far.geometry.bezel[2].0 = COORD_LIMIT;
    assert!(far.is_sound());
    far.geometry.marks[59].ring[0].1 = -COORD_LIMIT - 1;
    assert!(!far.is_sound());
    far.geometry.marks[59].ring[0].1 = 0;
    far.geometry.marks[7].numeral_at.0 = COORD_LIMIT;
    assert!(!far.is_sound());
    far.geometry.marks[7].numeral_at.0 = 0;
    far.geometry.marks[7].at = (isize::MAX, isize::MIN);
    assert!(far.is_sound());

    let mut late = reading(1, 1);
    late.time.hour = 24;
    assert!(!late.is_sound());
    let mut wide = reading(1, 1);
    wide.hands.hour.push((0, COORD_LIMIT + 1));
    assert!(!wide.is_sound());
    let mut off = reading(1, 1);
    off.hands.indicator_at = (COORD_LIMIT, 0);
    assert!(!off.is_sound());
}

#[test]
fn dots_of_minute_marks_may_lie_anywhere() {
    let mut face = face(Oversampling::Double);
    face.geometry.marks[1].at = (isize::MAX, isize::MIN);
    let (buffer, meta) = prepare_static_part(vec![0; 50_000], &face);
    let meta = meta.unwrap();
    let dot = meta.parts[4];
    assert_eq!(&buffer[dot.0..dot.0 + 8], &[0, 255, 0, 0, 0, 0, 0, 0]);
}
