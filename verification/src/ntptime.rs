//! The wall clock: the local tick counter plus an offset that time
//! synchronization finds and refines.

use vstd::prelude::*;

verus! {

/// Microseconds in a second.
pub const MICROS_PER_SECOND: u64 = 1_000_000;

/// The microseconds of a fraction of a second that is counted in steps of
/// 2^-32 seconds, rounded down.
pub open spec fn fraction_micros(seconds_fraction: u32) -> int {
    (seconds_fraction * 1_000_000) / 0x1_0000_0000
}

/// The offset, in microseconds, that makes a tick counter which stands at
/// `system_now` show the time `seconds` and `seconds_fraction` since the epoch.
pub open spec fn coarse_offset(seconds: u64, seconds_fraction: u32, system_now: u64) -> int {
    seconds * 1_000_000 + fraction_micros(seconds_fraction) - system_now
}

/// The source of the wall-clock readings: the time of the last reading and
/// the offset between the tick counter and the time since the epoch, both in
/// microseconds.
#[derive(Clone, Copy, Debug, PartialEq, Eq, Structural)]
pub struct StdTimestampGen {
    pub timestamp: u64,
    pub offset: u64,
}

/// The microseconds of a fraction of a second that is counted in steps of
/// 2^-32 seconds.
pub fn fraction_to_micros(seconds_fraction: u32) -> (micros: u32)
    ensures
        micros == fraction_micros(seconds_fraction),
        micros < MICROS_PER_SECOND,
{
    ((seconds_fraction as u64 * MICROS_PER_SECOND) / 0x1_0000_0000) as u32
}

impl StdTimestampGen {
    /// A source after the first exchange with a time server: the server's
    /// time was `seconds` and `seconds_fraction` when the tick counter stood at
    /// `system_now` microseconds. There is none where the tick counter is
    /// ahead of the server's time, or where the server's time does not fit a
    /// count of microseconds.
    pub fn synchronized(seconds: u64, seconds_fraction: u32, system_now: u64) -> (source: Option<
        StdTimestampGen,
    >)
        ensures
            source is Some <==> 0 <= coarse_offset(seconds, seconds_fraction, system_now)
                && coarse_offset(seconds, seconds_fraction, system_now) + system_now <= u64::MAX,
            source matches Some(s) ==> s.offset == coarse_offset(
                seconds,
                seconds_fraction,
                system_now,
            ) && s.timestamp == s.offset + system_now,
    {
        let micros = fraction_to_micros(seconds_fraction) as u64;
        if seconds > (u64::MAX - micros) / MICROS_PER_SECOND {
            return None;
        }
        let server: u64 = seconds * MICROS_PER_SECOND + micros;
        if server < system_now {
            None
        } else {
            Some(StdTimestampGen { timestamp: server, offset: server - system_now })
        }
    }

    /// Moves the offset by a correction in microseconds, forward for a
    /// positive one and back for a negative one. Where the offset would leave
    /// its range it stays and `false` is returned.
    pub fn refine(&mut self, correction: i64) -> (moved: bool)
        ensures
            moved <==> 0 <= old(self).offset + correction <= u64::MAX,
            moved ==> final(self).offset == old(self).offset + correction,
            !moved ==> final(self).offset == old(self).offset,
            final(self).timestamp == old(self).timestamp,
    {
        if correction > 0 {
            let forward = correction as u64;
            if forward > u64::MAX - self.offset {
                return false;
            }
            self.offset = self.offset + forward;
        } else {
            let back: u64 = if correction == i64::MIN {
                0x8000_0000_0000_0000
            } else {
                (-correction) as u64
            };
            if back > self.offset {
                return false;
            }
            self.offset = self.offset - back;
        }
        true
    }

    /// Takes a reading: the time is the tick counter, which stands at `now`
    /// microseconds, plus the offset.
    pub fn init(&mut self, now: u64)
        requires
            now + old(self).offset <= u64::MAX,
        ensures
            final(self).timestamp == now + old(self).offset,
            final(self).offset == old(self).offset,
    {
        self.timestamp = now + self.offset;
    }

    /// The whole seconds of the last reading.
    pub fn timestamp_sec(&self) -> (secs: u64)
        ensures
            secs == self.timestamp / 1_000_000,
    {
        self.timestamp / MICROS_PER_SECOND
    }

    /// The microseconds of the last reading within its second.
    pub fn timestamp_subsec_micros(&self) -> (micros: u32)
        ensures
            micros == self.timestamp % 1_000_000,
    {
        (self.timestamp % MICROS_PER_SECOND) as u32
    }
}

/// A reading splits into whole seconds and the microseconds within the
/// second, and both together give the reading back.
pub proof fn lemma_reading_splits(source: StdTimestampGen)
    ensures
        source.timestamp == (source.timestamp / 1_000_000) * 1_000_000 + source.timestamp
            % 1_000_000,
        0 <= source.timestamp % 1_000_000 < 1_000_000,
{
}

} // verus!
