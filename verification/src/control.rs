//! The control channel: messages that tune the two delays of the streaming
//! engine while the clock runs.

use crate::engine::Tuning;
use vstd::prelude::*;

verus! {

/// A delay that can be tuned.
#[derive(Clone, Copy, Debug, PartialEq, Eq, Structural)]
pub enum Parameter {
    /// The delay while the beam, blanked, moves to a segment.
    BeamOff,
    /// The delay before the beam is unblanked.
    BeamOn,
}

/// What a message did.
#[derive(Clone, Copy, Debug, PartialEq, Eq, Structural)]
pub enum ControlOutcome {
    /// The delay was set to the value.
    Applied { parameter: Parameter, value: u32 },
    /// The topic names no delay.
    UnknownTopic,
    /// The payload is no number that a delay can take.
    InvalidValue,
}

/// The topic `beam_off`.
pub open spec fn beam_off_topic() -> Seq<u8> {
    seq![98u8, 101u8, 97u8, 109u8, 95u8, 111u8, 102u8, 102u8]
}

/// The topic `beam_on`.
pub open spec fn beam_on_topic() -> Seq<u8> {
    seq![98u8, 101u8, 97u8, 109u8, 95u8, 111u8, 110u8]
}

/// The delay that a topic names.
pub open spec fn parameter_of(topic: Seq<u8>) -> Option<Parameter> {
    if topic == beam_off_topic() {
        Some(Parameter::BeamOff)
    } else if topic == beam_on_topic() {
        Some(Parameter::BeamOn)
    } else {
        None
    }
}

/// Whether every byte is a decimal digit.
pub open spec fn is_digits(bytes: Seq<u8>) -> bool {
    forall|i: int| 0 <= i < bytes.len() ==> 48 <= #[trigger] bytes[i] <= 57
}

/// The number that a run of decimal digits writes.
pub open spec fn decimal_value(digits: Seq<u8>) -> int
    decreases digits.len(),
{
    if digits.len() == 0 {
        0
    } else {
        decimal_value(digits.drop_last()) * 10 + (digits.last() - 48)
    }
}

/// The payload without the plus sign that may stand before the digits.
pub open spec fn unsigned_part(payload: Seq<u8>) -> Seq<u8> {
    if payload.len() > 0 && payload[0] == 43 {
        payload.skip(1)
    } else {
        payload
    }
}

/// The value that a payload writes: decimal digits, at least one, after at
/// most one plus sign, that give a number within `u32`.
pub open spec fn parsed_delay(payload: Seq<u8>) -> Option<u32> {
    let digits = unsigned_part(payload);
    if digits.len() > 0 && is_digits(digits) && decimal_value(digits) <= u32::MAX {
        Some(decimal_value(digits) as u32)
    } else {
        None
    }
}

/// The tuning after a message.
pub open spec fn tuned(tuning: Tuning, parameter: Parameter, value: u32) -> Tuning {
    match parameter {
        Parameter::BeamOff => Tuning { settle_delay: value, ..tuning },
        Parameter::BeamOn => Tuning { unblank_delay: value, ..tuning },
    }
}

/// What a message does to the tuning, and how it is answered.
pub open spec fn control_step(tuning: Tuning, topic: Seq<u8>, payload: Seq<u8>) -> (
    Tuning,
    ControlOutcome,
) {
    match parameter_of(topic) {
        None => (tuning, ControlOutcome::UnknownTopic),
        Some(parameter) => match parsed_delay(payload) {
            None => (tuning, ControlOutcome::InvalidValue),
            Some(value) => (
                tuned(tuning, parameter, value),
                ControlOutcome::Applied { parameter, value },
            ),
        },
    }
}

/// The number of a run of digits is not negative, and no smaller than the
/// number of any of its beginnings.
pub proof fn lemma_decimal_value_grows(digits: Seq<u8>, count: int)
    requires
        is_digits(digits),
        0 <= count <= digits.len(),
    ensures
        0 <= decimal_value(digits.take(count)) <= decimal_value(digits),
    decreases digits.len(),
{
    if digits.len() == 0 {
        assert(digits.take(count) =~= digits);
    } else if count == digits.len() {
        assert(digits.take(count) =~= digits);
        lemma_decimal_value_grows(digits.drop_last(), count - 1);
        assert(digits.last() == digits[digits.len() - 1]);
    } else {
        assert(is_digits(digits.drop_last())) by {
            assert forall|i: int| 0 <= i < digits.drop_last().len() implies 48
                <= #[trigger] digits.drop_last()[i] <= 57 by {
                assert(digits.drop_last()[i] == digits[i]);
            }
        }
        lemma_decimal_value_grows(digits.drop_last(), count);
        assert(digits.drop_last().take(count) =~= digits.take(count));
        assert(digits.last() == digits[digits.len() - 1]);
    }
}

/// Whether two runs of bytes are the same.
pub fn same_bytes(a: &[u8], b: &[u8]) -> (same: bool)
    ensures
        same == (a@ == b@),
{
    if a.len() != b.len() {
        return false;
    }
    let mut i: usize = 0;
    while i < a.len()
        invariant
            i <= a.len(),
            a.len() == b.len(),
            a@.take(i as int) == b@.take(i as int),
        decreases a.len() - i,
    {
        if a[i] != b[i] {
            return false;
        }
        assert(a@.take(i + 1) =~= a@.take(i as int).push(a@[i as int]));
        assert(b@.take(i + 1) =~= b@.take(i as int).push(b@[i as int]));
        i += 1;
    }
    assert(a@.take(a.len() as int) =~= a@);
    assert(b@.take(b.len() as int) =~= b@);
    true
}

/// The delay that a topic names, if it names one.
pub fn parameter_of_topic(topic: &[u8]) -> (parameter: Option<Parameter>)
    ensures
        parameter == parameter_of(topic@),
{
    let beam_off: Vec<u8> = vec![98u8, 101u8, 97u8, 109u8, 95u8, 111u8, 102u8, 102u8];
    let beam_on: Vec<u8> = vec![98u8, 101u8, 97u8, 109u8, 95u8, 111u8, 110u8];
    assert(beam_off@ =~= beam_off_topic());
    assert(beam_on@ =~= beam_on_topic());
    if same_bytes(topic, beam_off.as_slice()) {
        Some(Parameter::BeamOff)
    } else if same_bytes(topic, beam_on.as_slice()) {
        Some(Parameter::BeamOn)
    } else {
        None
    }
}

/// Reads the value of a delay from the payload of a message.
pub fn parse_delay(payload: &[u8]) -> (value: Option<u32>)
    ensures
        value == parsed_delay(payload@),
{
    let start: usize = if payload.len() > 0 && payload[0] == 43 {
        1
    } else {
        0
    };
    let ghost digits = unsigned_part(payload@);
    assert(digits =~= payload@.skip(start as int));
    if start == payload.len() {
        return None;
    }
    let mut value: u32 = 0;
    let mut i: usize = start;
    assert(digits.take(0) =~= Seq::<u8>::empty());
    while i < payload.len()
        invariant
            start <= i <= payload.len(),
            digits == unsigned_part(payload@),
            digits == payload@.skip(start as int),
            digits.len() > 0,
            is_digits(digits.take(i - start)),
            value == decimal_value(digits.take(i - start)),
        decreases payload.len() - i,
    {
        let byte = payload[i];
        let ghost read = digits.take(i - start);
        let ghost longer = digits.take(i - start + 1);
        proof {
            assert(byte == digits[i - start]);
            assert(longer.drop_last() =~= read);
            assert(longer.last() == byte);
        }
        if byte < 48 || byte > 57 {
            assert(!is_digits(digits));
            return None;
        }
        let digit: u32 = (byte - 48) as u32;
        if value > (u32::MAX - digit) / 10 {
            proof {
                assert(decimal_value(longer) == value * 10 + digit);
                if is_digits(digits) {
                    lemma_decimal_value_grows(digits, i - start + 1);
                }
            }
            return None;
        }
        value = value * 10 + digit;
        proof {
            assert forall|k: int| 0 <= k < longer.len() implies 48 <= #[trigger] longer[k]
                <= 57 by {
                if k < read.len() {
                    assert(longer[k] == read[k]);
                }
            }
        }
        i += 1;
    }
    assert(digits.take(payload.len() - start) =~= digits);
    Some(value)
}

/// Applies a message of the control channel: a topic that names a delay and
/// a payload that writes a value set the delay; every other message leaves
/// the tuning as it is.
pub fn apply_control_message(tuning: &mut Tuning, topic: &[u8], payload: &[u8]) -> (outcome:
    ControlOutcome)
    ensures
        (*final(tuning), outcome) == control_step(*old(tuning), topic@, payload@),
{
    match parameter_of_topic(topic) {
        None => ControlOutcome::UnknownTopic,
        Some(parameter) => match parse_delay(payload) {
            None => ControlOutcome::InvalidValue,
            Some(value) => {
                match parameter {
                    Parameter::BeamOff => {
                        tuning.settle_delay = value;
                    },
                    Parameter::BeamOn => {
                        tuning.unblank_delay = value;
                    },
                }
                ControlOutcome::Applied { parameter, value }
            },
        },
    }
}

} // verus!
