//! Bringing the display up: both buffers receive the unchanging part of the
//! face and a first picture each, one of which goes on display.

use crate::buffers::{BufferId, DisplayBuffers};
use crate::face::{
    draw_dynamic_part, dynamic_face, lemma_static_face_grows, prepare_static_part, static_face,
    ClockFace, Reading, Refused,
};
use crate::picture::{Picture, PictureError, PictureView, StaticPartMeta};
use vstd::prelude::*;

verus! {

/// The display as it is brought up.
pub struct Display {
    /// The two buffers: a picture on display and one that comes next.
    pub buffers: DisplayBuffers,
    /// Where the unchanging part of the face ends in either buffer.
    pub static_part_meta: StaticPartMeta,
}

/// The picture of the whole clock in an empty buffer of `capacity` bytes.
pub open spec fn clock_picture(
    capacity: nat,
    face: ClockFace,
    reading: Option<Reading>,
) -> PictureView {
    dynamic_face(
        static_face(PictureView::empty(capacity, face.oversampling), face),
        reading,
        face.font@,
    )
}

/// A picture of the clock over a buffer that already holds the unchanging
/// part of the face.
pub fn draw_picture(
    tx_buffer: Vec<u8>,
    static_part_meta: &StaticPartMeta,
    face: &ClockFace,
    reading: &Option<Reading>,
) -> (r: Result<Picture, Refused>)
    requires
        static_part_meta.wf(),
        face.wf(),
        reading matches Some(r) ==> r.wf(),
    ensures
        r is Ok <==> static_part_meta.out_index <= tx_buffer.len() && dynamic_face(
            static_part_meta.resumed(tx_buffer@, face.oversampling),
            *reading,
            face.font@,
        ).fits(),
        r matches Ok(picture) ==> picture.wf() && picture@ == dynamic_face(
            static_part_meta.resumed(tx_buffer@, face.oversampling),
            *reading,
            face.font@,
        ),
        r matches Err(refused) ==> refused.reason == PictureError::CapacityExceeded
            && refused.tx_buffer.len() == tx_buffer.len(),
{
    draw_dynamic_part(tx_buffer, static_part_meta, face, reading)
}

/// Brings the display up on two buffers: the unchanging part of the face is
/// drawn into both, then a picture of the clock into each. The picture in the
/// second buffer goes on display, the one in the first comes next. This fails
/// exactly when the picture of the clock does not fit one of the buffers.
pub fn scopeclock_init(
    tx_buffer1: Vec<u8>,
    tx_buffer2: Vec<u8>,
    face: &ClockFace,
    reading: &Option<Reading>,
) -> (r: Result<Display, PictureError>)
    requires
        face.wf(),
        reading matches Some(r) ==> r.wf(),
    ensures
        r is Ok <==> clock_picture(tx_buffer1.len() as nat, *face, *reading).fits()
            && clock_picture(tx_buffer2.len() as nat, *face, *reading).fits(),
        r matches Ok(display) ==> {
            &&& display.buffers.wf()
            &&& display.static_part_meta.wf()
            &&& display.buffers.canvas is None
            &&& display.buffers.current_buffer == BufferId::First
            &&& display.buffers.current_display@ == clock_picture(
                tx_buffer2.len() as nat,
                *face,
                *reading,
            )
            &&& display.buffers.next_display matches Some(next) && next@ == clock_picture(
                tx_buffer1.len() as nat,
                *face,
                *reading,
            )
            &&& display.static_part_meta.out_index == static_face(
                PictureView::empty(tx_buffer2.len() as nat, face.oversampling),
                *face,
            ).samples.len()
        },
        r matches Err(e) ==> e == PictureError::CapacityExceeded,
{
    let ghost empty1 = PictureView::empty(tx_buffer1.len() as nat, face.oversampling);
    let ghost empty2 = PictureView::empty(tx_buffer2.len() as nat, face.oversampling);
    proof {
        lemma_static_face_grows(empty1, *face);
        lemma_static_face_grows(empty2, *face);
        crate::face::lemma_dynamic_face_grows(static_face(empty1, *face), *reading, face.font@);
        crate::face::lemma_dynamic_face_grows(static_face(empty2, *face), *reading, face.font@);
    }
    let (tx_buffer1, first_meta) = prepare_static_part(tx_buffer1, face);
    let first_meta = match first_meta {
        Ok(meta) => meta,
        Err(e) => {
            return Err(e);
        },
    };
    let (tx_buffer2, second_meta) = prepare_static_part(tx_buffer2, face);
    let static_part_meta = match second_meta {
        Ok(meta) => meta,
        Err(e) => {
            return Err(e);
        },
    };
    proof {
        assert(first_meta.resumed(tx_buffer1@, face.oversampling) =~= static_face(empty1, *face));
        assert(static_part_meta.resumed(tx_buffer2@, face.oversampling) =~= static_face(
            empty2,
            *face,
        ));
    }
    let drawing1 = match draw_picture(tx_buffer1, &first_meta, face, reading) {
        Ok(picture) => picture,
        Err(refused) => {
            return Err(refused.reason);
        },
    };
    let drawing2 = match draw_picture(tx_buffer2, &static_part_meta, face, reading) {
        Ok(picture) => picture,
        Err(refused) => {
            return Err(refused.reason);
        },
    };
    Ok(Display { buffers: DisplayBuffers::new(drawing2, drawing1), static_part_meta })
}

} // verus!
