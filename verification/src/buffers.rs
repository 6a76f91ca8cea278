//! The two sample buffers and their roles: one is on display, the other is
//! free to be drawn into or holds the finished picture that comes next.

use crate::picture::{Picture, PictureView};
use crate::segment::Segment;
use vstd::prelude::*;

verus! {

/// One of the two sample buffers.
#[derive(Clone, Copy, Debug, PartialEq, Eq, Structural)]
pub enum BufferId {
    First,
    Second,
}

/// What a buffer is used for.
#[derive(Clone, Copy, Debug, PartialEq, Eq, Structural)]
pub enum Role {
    /// Free to be drawn into: waiting to be taken, or in the hands of whoever
    /// draws.
    Canvas,
    /// A finished picture that waits to be displayed.
    Next,
    /// The picture that is being streamed.
    Current,
}

impl BufferId {
    /// The other one of the two buffers.
    pub open spec fn spec_other(self) -> BufferId {
        match self {
            BufferId::First => BufferId::Second,
            BufferId::Second => BufferId::First,
        }
    }

    /// The other one of the two buffers.
    #[verifier::when_used_as_spec(spec_other)]
    pub fn other(self) -> (id: BufferId)
        ensures
            id == self.spec_other(),
    {
        match self {
            BufferId::First => BufferId::Second,
            BufferId::Second => BufferId::First,
        }
    }
}

/// The two buffers and who has them.
pub struct DisplayBuffers {
    /// The free buffer, while nobody draws into it. Its bytes are stale.
    pub canvas: Option<Vec<u8>>,
    /// The finished picture that is displayed next.
    pub next_display: Option<Picture>,
    /// The picture that is being streamed.
    pub current_display: Picture,
    /// Which of the two buffers `current_display` lies in.
    pub current_buffer: BufferId,
}

/// What the two buffers hold, as far as it matters: the picture on display,
/// the picture that comes next, and the size of the free buffer.
pub struct BuffersView {
    pub current: PictureView,
    pub next: Option<PictureView>,
    pub canvas: Option<nat>,
    pub current_buffer: BufferId,
}

impl BuffersView {
    /// The read cursor lies within the segments of the picture on display, and
    /// the buffer that is not on display is not free and finished at once.
    pub open spec fn wf(self) -> bool {
        &&& self.current.cursor <= self.current.segments.len()
        &&& !(self.canvas is Some && self.next is Some)
    }

    /// What a buffer is used for.
    pub open spec fn role(self, id: BufferId) -> Role {
        if id == self.current_buffer {
            Role::Current
        } else if self.next is Some {
            Role::Next
        } else {
            Role::Canvas
        }
    }

    /// After the picture on display is exhausted: the picture that comes next
    /// is put on display, to be read from its first segment, and the buffer of
    /// the old one becomes free. Without a picture that comes next nothing
    /// changes.
    pub open spec fn swapped(self) -> BuffersView {
        match self.next {
            Some(next) => BuffersView {
                current: PictureView { cursor: 0, ..next },
                next: None,
                canvas: Some(self.current.capacity),
                current_buffer: self.current_buffer.other(),
            },
            None => self,
        }
    }

    /// The buffers with the read cursor of the picture on display moved.
    pub open spec fn with_cursor(self, cursor: nat) -> BuffersView {
        BuffersView { current: PictureView { cursor, ..self.current }, ..self }
    }

    /// One step of the streaming side: the segment under the read cursor is
    /// handed out and the cursor moves on. Behind the last segment the buffers
    /// are swapped if a picture is waiting, and the first segment of the
    /// picture then on display is handed out. A picture without segments hands
    /// out nothing.
    pub open spec fn step(self) -> (BuffersView, Option<Segment>) {
        if self.current.cursor < self.current.segments.len() {
            (
                self.with_cursor(self.current.cursor + 1),
                Some(self.current.segments[self.current.cursor as int]),
            )
        } else {
            let swapped = self.swapped();
            if swapped.current.segments.len() > 0 {
                (swapped.with_cursor(1), Some(swapped.current.segments[0]))
            } else {
                (swapped.with_cursor(0), None)
            }
        }
    }

    /// The buffers after `count` steps of the streaming side.
    pub open spec fn steps(self, count: nat) -> BuffersView
        decreases count,
    {
        if count == 0 {
            self
        } else {
            self.steps((count - 1) as nat).step().0
        }
    }
}

impl View for DisplayBuffers {
    type V = BuffersView;

    open spec fn view(&self) -> BuffersView {
        BuffersView {
            current: self.current_display@,
            next: match self.next_display {
                Some(picture) => Some(picture@),
                None => None,
            },
            canvas: match self.canvas {
                Some(buffer) => Some(buffer.len() as nat),
                None => None,
            },
            current_buffer: self.current_buffer,
        }
    }
}

impl DisplayBuffers {
    /// Both pictures are well-formed, and the buffer that is not on display
    /// is not free and finished at once.
    pub open spec fn wf(&self) -> bool {
        &&& self.current_display.wf()
        &&& self.next_display matches Some(picture) ==> picture.wf()
        &&& !(self.canvas is Some && self.next_display is Some)
    }

    /// Whether the free buffer is in the hands of whoever draws.
    pub open spec fn canvas_is_out(&self) -> bool {
        self.canvas is None && self.next_display is None
    }

    /// The buffers at the start: one finished picture on display, in the first
    /// buffer, and one waiting.
    pub fn new(current: Picture, next: Picture) -> (buffers: DisplayBuffers)
        requires
            current.wf(),
            next.wf(),
        ensures
            buffers.wf(),
            buffers.current_display == current,
            buffers.next_display == Some(next),
            buffers.canvas is None,
            buffers.current_buffer == BufferId::First,
    {
        DisplayBuffers {
            canvas: None,
            next_display: Some(next),
            current_display: current,
            current_buffer: BufferId::First,
        }
    }

    /// Hands out the free buffer, if it is there, to be drawn into.
    pub fn take_canvas(&mut self) -> (canvas: Option<Vec<u8>>)
        requires
            old(self).wf(),
        ensures
            final(self).wf(),
            canvas == old(self).canvas,
            final(self).canvas is None,
            final(self).next_display == old(self).next_display,
            final(self).current_display == old(self).current_display,
            final(self).current_buffer == old(self).current_buffer,
    {
        self.canvas.take()
    }

    /// Takes the finished picture that was drawn into the free buffer; it is
    /// displayed next. Refused, the picture handed back, unless the free buffer
    /// is out: there are two buffers only.
    pub fn publish(&mut self, picture: Picture) -> (r: Result<(), Picture>)
        requires
            old(self).wf(),
            picture.wf(),
        ensures
            final(self).wf(),
            r is Ok <==> old(self).canvas_is_out(),
            r is Ok ==> final(self).next_display == Some(picture),
            r matches Err(back) ==> back == picture && final(self).next_display == old(
                self,
            ).next_display,
            final(self).canvas == old(self).canvas,
            final(self).current_display == old(self).current_display,
            final(self).current_buffer == old(self).current_buffer,
    {
        if self.canvas.is_some() || self.next_display.is_some() {
            return Err(picture);
        }
        self.next_display = Some(picture);
        Ok(())
    }

    /// Takes the free buffer back undrawn. Refused, the buffer handed back,
    /// unless the free buffer is out.
    pub fn return_canvas(&mut self, buffer: Vec<u8>) -> (r: Result<(), Vec<u8>>)
        requires
            old(self).wf(),
        ensures
            final(self).wf(),
            r is Ok <==> old(self).canvas_is_out(),
            r is Ok ==> final(self).canvas == Some(buffer),
            r matches Err(back) ==> back == buffer && final(self).canvas == old(self).canvas,
            final(self).next_display == old(self).next_display,
            final(self).current_display == old(self).current_display,
            final(self).current_buffer == old(self).current_buffer,
    {
        if self.canvas.is_some() || self.next_display.is_some() {
            return Err(buffer);
        }
        self.canvas = Some(buffer);
        Ok(())
    }

    /// Puts the picture that comes next on display, if there is one: its read
    /// cursor is set to its first segment and the buffer of the picture that
    /// was on display becomes the free buffer. Without one nothing changes and
    /// the picture on display is shown once more.
    pub fn select_next_picture(&mut self) -> (swapped: bool)
        requires
            old(self).wf(),
        ensures
            final(self).wf(),
            swapped == old(self).next_display is Some,
            final(self)@ == old(self)@.swapped(),
            swapped ==> final(self).canvas == Some(old(self).current_display.tx_buffer),
            !swapped ==> *final(self) == *old(self),
    {
        match self.next_display.take() {
            Some(mut picture) => {
                picture.current_part = 0;
                core::mem::swap(&mut self.current_display, &mut picture);
                self.canvas = Some(picture.tx_buffer);
                self.current_buffer = self.current_buffer.other();
                true
            },
            None => false,
        }
    }

    /// Chooses the segment that is streamed next and moves the read cursor
    /// behind it; behind the last segment the buffers are swapped first, where
    /// a picture is waiting. Nothing is chosen where the picture on display
    /// has no segment.
    pub fn next_segment(&mut self) -> (segment: Option<Segment>)
        requires
            old(self).wf(),
        ensures
            final(self).wf(),
            (final(self)@, segment) == old(self)@.step(),
            segment matches Some(s) ==> s.0 <= s.1 <= final(self).current_display.out_index,
            segment matches Some(s) ==> s.0 % 4 == 0 && s.1 % 4 == 0,
    {
        let cursor = self.current_display.current_part;
        if cursor < self.current_display.parts.len() {
            let segment = self.current_display.parts[cursor];
            self.current_display.current_part = cursor + 1;
            proof {
                crate::segment::lemma_segments_partition(
                    self.current_display.parts@,
                    self.current_display.out_index as int,
                );
            }
            return Some(segment);
        }
        self.select_next_picture();
        if self.current_display.parts.len() > 0 {
            let segment = self.current_display.parts[0];
            self.current_display.current_part = 1;
            proof {
                crate::segment::lemma_segments_partition(
                    self.current_display.parts@,
                    self.current_display.out_index as int,
                );
            }
            Some(segment)
        } else {
            self.current_display.current_part = 0;
            None
        }
    }
}

/// Each of the two buffers has one role, and the two never have the same
/// role: one is on display, the other is free or holds the picture that
/// comes next.
pub proof fn lemma_roles_are_distinct(buffers: BuffersView)
    requires
        buffers.wf(),
    ensures
        buffers.role(BufferId::First) != buffers.role(BufferId::Second),
        buffers.role(buffers.current_buffer) == Role::Current,
        buffers.role(buffers.current_buffer.other()) != Role::Current,
        buffers.role(buffers.current_buffer.other()) == Role::Next <==> buffers.next is Some,
        buffers.canvas is Some ==> buffers.role(buffers.current_buffer.other()) == Role::Canvas,
{
}

/// A step of the streaming side keeps the buffers well-formed, and so does
/// their swap; a swap changes the role of both buffers or of none.
pub proof fn lemma_step_keeps_roles(buffers: BuffersView)
    requires
        buffers.wf(),
    ensures
        buffers.swapped().wf(),
        buffers.step().0.wf(),
        buffers.next is Some ==> buffers.swapped().role(buffers.current_buffer) == Role::Canvas
            && buffers.swapped().role(buffers.current_buffer.other()) == Role::Current,
        buffers.next is None ==> buffers.swapped() == buffers,
{
}

/// While no picture is waiting, the streaming side goes round the picture on
/// display for as many steps as are taken: the picture stays what it is, the
/// read cursor stays within its segments, and every step hands out one of its
/// segments, if it has any.
pub proof fn lemma_display_repeats(buffers: BuffersView, count: nat)
    requires
        buffers.wf(),
        buffers.next is None,
    ensures
        buffers.steps(count).wf(),
        buffers.steps(count).next is None,
        buffers.steps(count).canvas == buffers.canvas,
        buffers.steps(count).current_buffer == buffers.current_buffer,
        buffers.steps(count).current.samples == buffers.current.samples,
        buffers.steps(count).current.segments == buffers.current.segments,
        buffers.steps(count).current.cursor <= buffers.current.segments.len(),
        buffers.current.segments.len() > 0 ==> buffers.steps(count).step().1 is Some,
        buffers.steps(count).step().1 matches Some(segment) ==> exists|i: int|
            0 <= i < buffers.current.segments.len() && buffers.current.segments[i] == segment,
    decreases count,
{
    if count > 0 {
        lemma_display_repeats(buffers, (count - 1) as nat);
    }
    let now = buffers.steps(count);
    if now.current.cursor < now.current.segments.len() {
        assert(buffers.current.segments[now.current.cursor as int] == now.step().1->0);
    } else if now.current.segments.len() > 0 {
        assert(buffers.current.segments[0] == now.step().1->0);
    }
}

} // verus!
