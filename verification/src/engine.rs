//! The streaming engine: a state machine that is stepped by the events of the
//! output hardware and says, for each of them, what the hardware does next.

use crate::buffers::{BuffersView, DisplayBuffers};
use crate::segment::Segment;
use crate::sample::FRAME_BYTES;
use vstd::prelude::*;

verus! {

/// Failed transfers in a row after which the engine gives up.
pub const RETRY_LIMIT: u8 = 3;

/// Where the engine stands between two events.
#[derive(Clone, Copy, Debug, PartialEq, Eq, Structural)]
pub enum Phase {
    /// No transfer is pending.
    Idle,
    /// The first sample of a segment is being transferred, the beam blanked,
    /// to move the beam to where the segment begins.
    Settling,
    /// A whole segment is being transferred.
    Streaming,
    /// Too many transfers have failed: the beam is blanked and nothing is
    /// transferred any more.
    Halted,
}

/// What the engine is told.
#[derive(Clone, Copy, Debug, PartialEq, Eq, Structural)]
pub enum Event {
    /// The engine is kicked, or the hardware has run out of samples.
    Trigger,
    /// The transfer that moves the beam is through.
    Settled,
    /// The transfer that was asked for last could not be made.
    Failed,
}

/// The two delays that can be tuned while the clock runs. Longer delays hide
/// the fly-back of the beam better and cost frame rate.
#[derive(Clone, Copy, Debug, PartialEq, Eq, Structural)]
pub struct Tuning {
    /// How long the engine waits once it has started to move the beam.
    pub settle_delay: u32,
    /// How long the engine waits, the beam arrived, before it unblanks it.
    pub unblank_delay: u32,
}

/// What the hardware is to do.
#[derive(Clone, Copy, Debug, PartialEq, Eq, Structural)]
pub enum Action {
    /// Nothing.
    Nothing,
    /// No segment is there to be shown: wait for the transfer that is still
    /// running, if one is, and start none.
    Rest { await_previous: bool },
    /// Wait for the transfer that is still running, if one is; blank the beam,
    /// if `blank` is set; transfer the bytes `[start, end)` of the picture on
    /// display; wait for `delay`; wait for the transfer.
    Settle { await_previous: bool, blank: bool, start: usize, end: usize, delay: u32 },
    /// Wait for `delay`, unblank the beam; start to transfer the bytes
    /// `[start, end)` of the picture on display, and return.
    Stream { start: usize, end: usize, delay: u32 },
    /// Blank the beam and leave it blanked.
    Halt,
}

/// The streaming engine.
pub struct StreamingEngine {
    pub phase: Phase,
    /// The segment that was chosen last.
    pub segment: Segment,
    /// Whether the beam is blanked anew before each move. Without it the beam
    /// is taken to be dark while it is moved.
    pub reassert_blanking: bool,
    /// Transfers that failed since a segment was last streamed to its end.
    pub failures: u8,
}

/// The first sample of a segment: its first frame, or nothing of an empty
/// segment.
pub open spec fn first_sample(segment: Segment) -> Segment {
    if segment.1 - segment.0 >= 4 {
        (segment.0, (segment.0 + 4) as usize)
    } else {
        (segment.0, segment.1)
    }
}

/// The action that moves the beam to where a segment begins.
pub open spec fn settle(
    segment: Segment,
    await_previous: bool,
    blank: bool,
    tuning: Tuning,
) -> Action {
    Action::Settle {
        await_previous,
        blank,
        start: first_sample(segment).0,
        end: first_sample(segment).1,
        delay: tuning.settle_delay,
    }
}

/// What an event does to the engine and to the buffers, and the action that
/// answers it.
///
/// A trigger, unless the beam is just being moved or the engine has given up,
/// chooses the next segment and has the beam moved there; without a segment
/// the engine rests. Once the beam has arrived, the segment is streamed. A
/// failed transfer has the beam blanked and moved to the same segment once
/// more; after `RETRY_LIMIT` failures in a row the engine gives up. Every other
/// event is passed over.
pub open spec fn transition(
    engine: StreamingEngine,
    buffers: BuffersView,
    tuning: Tuning,
    event: Event,
) -> (StreamingEngine, BuffersView, Action) {
    match (engine.phase, event) {
        (Phase::Halted, _) => (engine, buffers, Action::Nothing),
        (Phase::Settling, Event::Settled) => (
            StreamingEngine { phase: Phase::Streaming, ..engine },
            buffers,
            Action::Stream {
                start: engine.segment.0,
                end: engine.segment.1,
                delay: tuning.unblank_delay,
            },
        ),
        (Phase::Settling, Event::Trigger) => (engine, buffers, Action::Nothing),
        (Phase::Idle, Event::Settled) => (engine, buffers, Action::Nothing),
        (Phase::Streaming, Event::Settled) => (engine, buffers, Action::Nothing),
        (Phase::Idle, Event::Failed) => (engine, buffers, Action::Nothing),
        (_, Event::Failed) => if engine.failures < RETRY_LIMIT {
            (
                StreamingEngine {
                    phase: Phase::Settling,
                    failures: (engine.failures + 1) as u8,
                    ..engine
                },
                buffers,
                settle(engine.segment, false, true, tuning),
            )
        } else {
            (StreamingEngine { phase: Phase::Halted, ..engine }, buffers, Action::Halt)
        },
        (_, Event::Trigger) => {
            let await_previous = engine.phase == Phase::Streaming;
            match buffers.step().1 {
                Some(segment) => (
                    StreamingEngine { phase: Phase::Settling, segment, failures: 0, ..engine },
                    buffers.step().0,
                    settle(segment, await_previous, engine.reassert_blanking, tuning),
                ),
                None => (
                    StreamingEngine { phase: Phase::Idle, failures: 0, ..engine },
                    buffers.step().0,
                    Action::Rest { await_previous },
                ),
            }
        },
    }
}

/// The byte range of the first sample of a segment.
pub fn first_sample_of(segment: Segment) -> (first: Segment)
    requires
        segment.0 <= segment.1,
    ensures
        first == first_sample(segment),
        segment.0 == first.0 <= first.1 <= segment.1,
{
    if segment.1 - segment.0 >= FRAME_BYTES {
        (segment.0, segment.0 + FRAME_BYTES)
    } else {
        segment
    }
}

impl StreamingEngine {
    /// While a segment is being shown it lies within the picture on display.
    pub open spec fn wf(&self, buffers: &DisplayBuffers) -> bool {
        self.phase == Phase::Settling || self.phase == Phase::Streaming ==> self.segment.0
            <= self.segment.1 <= buffers.current_display.out_index
    }

    /// An engine that has not been kicked yet.
    pub fn new(reassert_blanking: bool) -> (engine: StreamingEngine)
        ensures
            engine.phase == Phase::Idle,
            engine.segment == (0usize, 0usize),
            engine.reassert_blanking == reassert_blanking,
            engine.failures == 0,
    {
        StreamingEngine { phase: Phase::Idle, segment: (0, 0), reassert_blanking, failures: 0 }
    }

    /// The action that moves the beam to where the chosen segment begins.
    fn settle_action(&self, await_previous: bool, blank: bool, tuning: &Tuning) -> (action: Action)
        requires
            self.segment.0 <= self.segment.1,
        ensures
            action == settle(self.segment, await_previous, blank, *tuning),
            action matches Action::Settle { start, end, .. } && self.segment.0 == start <= end
                <= self.segment.1,
    {
        let first = first_sample_of(self.segment);
        Action::Settle {
            await_previous,
            blank,
            start: first.0,
            end: first.1,
            delay: tuning.settle_delay,
        }
    }

    /// Steps the engine by one event, as [`transition`] says. Every byte range
    /// that an action names lies within what is written of the picture on
    /// display, and only a trigger that chooses a segment touches the buffers.
    pub fn on_event(
        &mut self,
        buffers: &mut DisplayBuffers,
        tuning: &Tuning,
        event: Event,
    ) -> (action: Action)
        requires
            old(buffers).wf(),
            old(self).wf(old(buffers)),
        ensures
            final(buffers).wf(),
            final(self).wf(final(buffers)),
            (*final(self), final(buffers)@, action) == transition(
                *old(self),
                old(buffers)@,
                *tuning,
                event,
            ),
            action matches Action::Settle { start, end, .. } ==> start <= end <= final(
                buffers
            ).current_display.out_index,
            action matches Action::Stream { start, end, .. } ==> start <= end <= final(
                buffers
            ).current_display.out_index,
            !(event == Event::Trigger && (old(self).phase == Phase::Idle || old(self).phase
                == Phase::Streaming)) ==> *final(buffers) == *old(buffers),
    {
        match (self.phase, event) {
            (Phase::Halted, _) => Action::Nothing,
            (Phase::Settling, Event::Settled) => {
                self.phase = Phase::Streaming;
                Action::Stream {
                    start: self.segment.0,
                    end: self.segment.1,
                    delay: tuning.unblank_delay,
                }
            },
            (Phase::Settling, Event::Trigger) => Action::Nothing,
            (Phase::Idle, Event::Settled) => Action::Nothing,
            (Phase::Streaming, Event::Settled) => Action::Nothing,
            (Phase::Idle, Event::Failed) => Action::Nothing,
            (_, Event::Failed) => {
                if self.failures < RETRY_LIMIT {
                    self.phase = Phase::Settling;
                    self.failures = self.failures + 1;
                    self.settle_action(false, true, tuning)
                } else {
                    self.phase = Phase::Halted;
                    Action::Halt
                }
            },
            (previous, Event::Trigger) => {
                let await_previous = match previous {
                    Phase::Streaming => true,
                    _ => false,
                };
                self.failures = 0;
                match buffers.next_segment() {
                    Some(segment) => {
                        self.phase = Phase::Settling;
                        self.segment = segment;
                        self.settle_action(await_previous, self.reassert_blanking, tuning)
                    },
                    None => {
                        self.phase = Phase::Idle;
                        Action::Rest { await_previous }
                    },
                }
            },
        }
    }
}

/// A run of failed transfers ends: with each failure the engine either counts
/// one more, up to `RETRY_LIMIT`, or gives up, and an engine that has given up
/// stays so whatever it is told.
pub proof fn lemma_failures_are_bounded(
    engine: StreamingEngine,
    buffers: BuffersView,
    tuning: Tuning,
    event: Event,
)
    requires
        engine.failures <= RETRY_LIMIT,
    ensures
        transition(engine, buffers, tuning, event).0.failures <= RETRY_LIMIT,
        engine.phase == Phase::Halted ==> transition(engine, buffers, tuning, event).0 == engine
            && transition(engine, buffers, tuning, event).2 == Action::Nothing,
        event == Event::Failed && (engine.phase == Phase::Settling || engine.phase
            == Phase::Streaming) ==> {
            ||| transition(engine, buffers, tuning, event).0.failures == engine.failures + 1
            ||| transition(engine, buffers, tuning, event).0.phase == Phase::Halted
                && transition(engine, buffers, tuning, event).2 == Action::Halt
        },
{
}

} // verus!
