//! Civil time and what the clock face shows of it: the directions of the
//! three hands, the kind of each mark on the dial and the choice between the
//! two indicators.

use chrono::{Datelike, TimeZone, Timelike};
use vstd::prelude::*;

verus! {

/// Steps of a full turn. Directions are counted in these steps, clockwise
/// from straight up.
pub const TURN: u32 = 180_000;

/// Positions on the dial, one for each minute.
pub const DIAL_POSITIONS: u8 = 60;

/// An instant of local civil time.
#[derive(Clone, Copy, Debug, PartialEq, Eq, Structural)]
pub struct CivilTime {
    /// Hour of the day, from 0 to 23.
    pub hour: u8,
    /// Minute of the hour, from 0 to 59.
    pub minute: u8,
    /// Second of the minute, from 0 to 59.
    pub second: u8,
    /// Milliseconds since the second began. A leap second is counted on top of
    /// second 59, so the value stays below 2000.
    pub millisecond: u16,
    /// Day of the month, from 1 to 31.
    pub day: u8,
    /// Month of the year, from 1 to 12.
    pub month: u8,
}

/// Whether six numbers are hour, minute, second, millisecond, day and month of
/// an instant.
pub open spec fn valid_fields(
    hour: u32,
    minute: u32,
    second: u32,
    millisecond: u32,
    day: u32,
    month: u32,
) -> bool {
    &&& hour < 24
    &&& minute < 60
    &&& second < 60
    &&& millisecond < 2000
    &&& 1 <= day <= 31
    &&& 1 <= month <= 12
}

/// The instant with the given fields, if they are those of an instant.
pub open spec fn civil_time_of(fields: (u32, u32, u32, u32, u32, u32)) -> Option<CivilTime> {
    if valid_fields(fields.0, fields.1, fields.2, fields.3, fields.4, fields.5) {
        Some(
            CivilTime {
                hour: fields.0 as u8,
                minute: fields.1 as u8,
                second: fields.2 as u8,
                millisecond: fields.3 as u16,
                day: fields.4 as u8,
                month: fields.5 as u8,
            },
        )
    } else {
        None
    }
}

/// What shows besides the hands.
#[derive(Clone, Copy, Debug, PartialEq, Eq, Structural)]
pub enum Indicator {
    /// The half of the day.
    Meridiem { pm: bool },
    /// Day of the month and month.
    Date { day: u8, month: u8 },
}

/// What marks a position of the dial.
#[derive(Clone, Copy, Debug, PartialEq, Eq, Structural)]
pub enum Mark {
    /// A ring and the number of the hour.
    Hour { number: u8 },
    /// A dot.
    Minute,
}

/// The mark at a position of the dial: every fifth position bears an hour,
/// the topmost one the twelve.
pub open spec fn mark_of(position: int) -> Mark {
    if position % 5 == 0 {
        Mark::Hour {
            number: if position == 0 {
                12u8
            } else {
                (position / 5) as u8
            },
        }
    } else {
        Mark::Minute
    }
}

/// Direction of a position of the dial.
pub open spec fn position_direction(position: int) -> int {
    position * 3000
}

/// The mark at a position of the dial.
pub fn mark_at(position: u8) -> (mark: Mark)
    requires
        position < DIAL_POSITIONS,
    ensures
        mark == mark_of(position as int),
        mark matches Mark::Hour { number } ==> 1 <= number <= 12,
{
    if position % 5 == 0 {
        Mark::Hour {
            number: if position == 0 {
                12
            } else {
                position / 5
            },
        }
    } else {
        Mark::Minute
    }
}

/// Direction of a position of the dial, in steps of a turn.
pub fn direction_of_position(position: u8) -> (direction: u32)
    requires
        position < DIAL_POSITIONS,
    ensures
        direction == position_direction(position as int),
        direction < TURN,
{
    position as u32 * 3000
}

impl CivilTime {
    /// Every field is within its range.
    pub open spec fn wf(&self) -> bool {
        valid_fields(
            self.hour as u32,
            self.minute as u32,
            self.second as u32,
            self.millisecond as u32,
            self.day as u32,
            self.month as u32,
        )
    }

    /// Direction of the second hand: it sweeps with the milliseconds, once
    /// round in a minute.
    pub open spec fn second_direction(&self) -> int {
        ((self.second * 1000 + self.millisecond) * 3) % 180_000
    }

    /// Direction of the minute hand: it creeps with the seconds, once round in
    /// an hour.
    pub open spec fn minute_direction(&self) -> int {
        (self.minute * 60 + self.second) * 50
    }

    /// Direction of the hour hand: it creeps with the minutes, once round in
    /// twelve hours.
    pub open spec fn hour_direction(&self) -> int {
        ((self.hour % 12) * 60 + self.minute) * 250
    }

    /// What shows besides the hands: in each ten seconds the half of the day
    /// for five seconds, then the date for five.
    pub open spec fn indicator(&self) -> Indicator {
        if self.second % 10 >= 5 {
            Indicator::Date { day: self.day, month: self.month }
        } else {
            Indicator::Meridiem { pm: self.hour >= 12 }
        }
    }

    /// The instant with the given fields, if they are those of an instant.
    pub fn from_fields(
        hour: u32,
        minute: u32,
        second: u32,
        millisecond: u32,
        day: u32,
        month: u32,
    ) -> (time: Option<CivilTime>)
        ensures
            time == civil_time_of((hour, minute, second, millisecond, day, month)),
            time matches Some(t) ==> t.wf(),
    {
        if hour < 24 && minute < 60 && second < 60 && millisecond < 2000 && 1 <= day && day <= 31
            && 1 <= month && month <= 12 {
            Some(
                CivilTime {
                    hour: hour as u8,
                    minute: minute as u8,
                    second: second as u8,
                    millisecond: millisecond as u16,
                    day: day as u8,
                    month: month as u8,
                },
            )
        } else {
            None
        }
    }

    /// Whether every field is within its range.
    pub fn is_sound(&self) -> (ok: bool)
        ensures
            ok == self.wf(),
    {
        self.hour < 24 && self.minute < 60 && self.second < 60 && self.millisecond < 2000 && 1
            <= self.day && self.day <= 31 && 1 <= self.month && self.month <= 12
    }

    /// Direction of the second hand, in steps of a turn.
    pub fn second_hand(&self) -> (direction: u32)
        requires
            self.wf(),
        ensures
            direction == self.second_direction(),
            direction < TURN,
    {
        ((self.second as u32 * 1000 + self.millisecond as u32) * 3) % TURN
    }

    /// Direction of the minute hand, in steps of a turn.
    pub fn minute_hand(&self) -> (direction: u32)
        requires
            self.wf(),
        ensures
            direction == self.minute_direction(),
            direction < TURN,
    {
        (self.minute as u32 * 60 + self.second as u32) * 50
    }

    /// Direction of the hour hand, in steps of a turn.
    pub fn hour_hand(&self) -> (direction: u32)
        requires
            self.wf(),
        ensures
            direction == self.hour_direction(),
            direction < TURN,
    {
        ((self.hour % 12) as u32 * 60 + self.minute as u32) * 250
    }

    /// Whether the instant lies in the second half of the day.
    pub fn is_pm(&self) -> (pm: bool)
        ensures
            pm == (self.hour >= 12),
    {
        self.hour >= 12
    }

    /// What shows besides the hands at this instant.
    pub fn select_indicator(&self) -> (shown: Indicator)
        ensures
            shown == self.indicator(),
            self.second % 10 >= 5 <==> shown is Date,
    {
        if self.second % 10 >= 5 {
            Indicator::Date { day: self.day, month: self.month }
        } else {
            Indicator::Meridiem { pm: self.hour >= 12 }
        }
    }
}

/// Hour, minute, second, millisecond, day and month that `chrono` and
/// `chrono_tz` give for the instant `secs` seconds and `nanos` nanoseconds
/// after the epoch in the time zone Europe/Berlin; `None` where `chrono` has no
/// date for the instant.
pub uninterp spec fn berlin_fields(secs: i64, nanos: u32) -> Option<
    (u32, u32, u32, u32, u32, u32),
>;

/// Calls `chrono::DateTime::from_timestamp`, moves the instant to
/// `chrono_tz::Europe::Berlin` with `from_utc_datetime` and reads the fields of
/// the local time. Trusted: only that the result is a function of the
/// arguments, the time zone's rules being part of `chrono_tz`.
#[verifier::external_body]
fn read_berlin_fields(secs: i64, nanos: u32) -> (fields: Option<(u32, u32, u32, u32, u32, u32)>)
    ensures
        fields == berlin_fields(secs, nanos),
{
    let utc = chrono::DateTime::from_timestamp(secs, nanos)?;
    let local = chrono_tz::Europe::Berlin.from_utc_datetime(&utc.naive_utc());
    Some(
        (
            local.hour(),
            local.minute(),
            local.second(),
            local.timestamp_subsec_millis(),
            local.day(),
            local.month(),
        ),
    )
}

/// The local time that a reading of the wall clock stands for, where the
/// reading is one: seconds that fit a signed count, microseconds below a
/// million, and fields that are those of an instant.
pub open spec fn local_time_of(secs: u64, micros: u32) -> Option<CivilTime> {
    if secs <= i64::MAX && micros < 1_000_000 {
        match berlin_fields(secs as i64, (micros * 1000) as u32) {
            Some(fields) => civil_time_of(fields),
            None => None,
        }
    } else {
        None
    }
}

/// The local civil time of a reading of the wall clock, given as seconds since
/// the epoch and microseconds within the second.
pub fn local_time(secs: u64, micros: u32) -> (time: Option<CivilTime>)
    ensures
        time == local_time_of(secs, micros),
        time matches Some(t) ==> t.wf(),
{
    if secs > i64::MAX as u64 || micros >= 1_000_000 {
        return None;
    }
    match read_berlin_fields(secs as i64, micros * 1000) {
        Some(fields) => CivilTime::from_fields(
            fields.0,
            fields.1,
            fields.2,
            fields.3,
            fields.4,
            fields.5,
        ),
        None => None,
    }
}

/// The hour hand is a quarter turn further for every three full hours, and
/// where it was twelve hours earlier.
pub proof fn lemma_hour_hand_advance(early: CivilTime, late: CivilTime)
    requires
        early.wf(),
        late.wf(),
        early.minute == late.minute,
    ensures
        late.hour == early.hour + 3 && early.hour % 12 < 9 ==> late.hour_direction()
            == early.hour_direction() + 45_000,
        late.hour == early.hour + 12 ==> late.hour_direction() == early.hour_direction(),
{
}

/// The minute hand points at a position of the dial at each full minute, and
/// the hour hand at the position of the hour's number at each full hour.
pub proof fn lemma_hands_meet_marks(t: CivilTime)
    requires
        t.wf(),
    ensures
        t.second == 0 ==> t.minute_direction() == position_direction(t.minute as int),
        t.minute == 0 ==> t.hour_direction() == position_direction((t.hour % 12) * 5),
        t.second_direction() < 180_000,
        t.minute_direction() < 180_000,
        t.hour_direction() < 180_000,
{
}

} // verus!
