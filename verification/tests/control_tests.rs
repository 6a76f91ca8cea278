use scopeclock::engine::Tuning;
use scopeclock::control::{
    apply_control_message, parameter_of_topic, parse_delay, same_bytes, ControlOutcome, Parameter,
};
use scopeclock::ntptime::{fraction_to_micros, StdTimestampGen};

#[test]
fn delay_is_read_from_decimal_digits() {
    assert_eq!(parse_delay(b"0"), Some(0));
    assert_eq!(parse_delay(b"10"), Some(10));
    assert_eq!(parse_delay(b"+10"), Some(10));
    assert_eq!(parse_delay(b"007"), Some(7));
    assert_eq!(parse_delay(b"4294967295"), Some(u32::MAX));
    assert_eq!(parse_delay(b"0000000004294967295"), Some(u32::MAX));
}

#[test]
fn payload_that_writes_no_delay_is_refused() {
    assert_eq!(parse_delay(b""), None);
    assert_eq!(parse_delay(b"+"), None);
    assert_eq!(parse_delay(b"-1"), None);
    assert_eq!(parse_delay(b"++1"), None);
    assert_eq!(parse_delay(b"1+"), None);
    assert_eq!(parse_delay(b" 1"), None);
    assert_eq!(parse_delay(b"1 "), None);
    assert_eq!(parse_delay(b"12a"), None);
    assert_eq!(parse_delay(b"4294967296"), None);
    assert_eq!(parse_delay(b"42949672950"), None);
    assert_eq!(parse_delay(b"99999999999999999999"), None);
    assert_eq!(parse_delay(&[0xff, 0xfe]), None);
    assert_eq!(parse_delay(b"1/"), None);
    assert_eq!(parse_delay(b"1:"), None);
}

#[test]
fn delay_agrees_with_the_standard_parser() {
    for text in ["0", "1", "+5", "12345", "4294967295", "4294967296", "", "+", "x", "1x", "-0"] {
        assert_eq!(parse_delay(text.as_bytes()), text.parse::<u32>().ok(), "{:?}", text);
    }
}

#[test]
fn topics_name_the_two_delays() {
    assert_eq!(parameter_of_topic(b"beam_off"), Some(Parameter::BeamOff));
    assert_eq!(parameter_of_topic(b"beam_on"), Some(Parameter::BeamOn));
    assert_eq!(parameter_of_topic(b"beam_o"), None);
    assert_eq!(parameter_of_topic(b"beam_onn"), None);
    assert_eq!(parameter_of_topic(b"Beam_on"), None);
    assert_eq!(parameter_of_topic(b""), None);
    assert!(same_bytes(b"", b""));
    assert!(same_bytes(b"abc", b"abc"));
    assert!(!same_bytes(b"abc", b"abd"));
    assert!(!same_bytes(b"abc", b"ab"));
}

#[test]
fn message_sets_the_delay_that_its_topic_names() {
    let mut tuning = Tuning { settle_delay: 10, unblank_delay: 0 };
    assert_eq!(
        apply_control_message(&mut tuning, b"beam_off", b"25"),
        ControlOutcome::Applied { parameter: Parameter::BeamOff, value: 25 }
    );
    assert_eq!(tuning, Tuning { settle_delay: 25, unblank_delay: 0 });
    assert_eq!(
        apply_control_message(&mut tuning, b"beam_on", b"7"),
        ControlOutcome::Applied { parameter: Parameter::BeamOn, value: 7 }
    );
    assert_eq!(tuning, Tuning { settle_delay: 25, unblank_delay: 7 });
}

#[test]
fn other_messages_leave_the_tuning_alone() {
    let mut tuning = Tuning { settle_delay: 10, unblank_delay: 0 };
    assert_eq!(apply_control_message(&mut tuning, b"beam", b"25"), ControlOutcome::UnknownTopic);
    assert_eq!(apply_control_message(&mut tuning, b"beam_on", b"x"), ControlOutcome::InvalidValue);
    assert_eq!(apply_control_message(&mut tuning, b"beam_off", b""), ControlOutcome::InvalidValue);
    assert_eq!(apply_control_message(&mut tuning, b"other", b"x"), ControlOutcome::UnknownTopic);
    assert_eq!(tuning, Tuning { settle_delay: 10, unblank_delay: 0 });
}

#[test]
fn fraction_of_a_second_becomes_microseconds() {
    assert_eq!(fraction_to_micros(0), 0);
    assert_eq!(fraction_to_micros(0x8000_0000), 500_000);
    assert_eq!(fraction_to_micros(0x4000_0000), 250_000);
    assert_eq!(fraction_to_micros(u32::MAX), 999_999);
    assert_eq!(fraction_to_micros(4295), 1);
    assert_eq!(fraction_to_micros(4294), 0);
}

#[test]
fn offset_is_the_servers_time_less_the_tick_counter() {
    let source = StdTimestampGen::synchronized(1_700_000_000, 0x8000_0000, 2_000_000).unwrap();
    assert_eq!(source.offset, 1_700_000_000_000_000 + 500_000 - 2_000_000);
    assert_eq!(source.timestamp, 1_700_000_000_500_000);
    assert_eq!(source.timestamp_sec(), 1_700_000_000);
    assert_eq!(source.timestamp_subsec_micros(), 500_000);
    assert!(StdTimestampGen::synchronized(1, 0, 1_000_001).is_none());
    assert_eq!(
        StdTimestampGen::synchronized(1, 0, 1_000_000),
        Some(StdTimestampGen { timestamp: 1_000_000, offset: 0 })
    );
}

#[test]
fn offset_is_refined_in_both_directions() {
    let mut source = StdTimestampGen { timestamp: 0, offset: 1_000 };
    assert!(source.refine(250));
    assert_eq!(source.offset, 1_250);
    assert!(source.refine(-1_250));
    assert_eq!(source.offset, 0);
    assert!(!source.refine(-1));
    assert_eq!(source.offset, 0);
    assert!(source.refine(0));
    assert!(!source.refine(i64::MIN));
    let mut far = StdTimestampGen { timestamp: 0, offset: u64::MAX - 5 };
    assert!(!far.refine(6));
    assert_eq!(far.offset, u64::MAX - 5);
    assert!(far.refine(5));
    assert_eq!(far.offset, u64::MAX);
    assert!(far.refine(i64::MIN));
    assert_eq!(far.offset, u64::MAX - (1u64 << 63));
}

#[test]
fn reading_is_the_tick_counter_plus_the_offset() {
    let mut source = StdTimestampGen { timestamp: 0, offset: 1_700_000_000_000_000 };
    source.init(12_345_678);
    assert_eq!(source.timestamp, 1_700_000_012_345_678);
    assert_eq!(source.timestamp_sec(), 1_700_000_012);
    assert_eq!(source.timestamp_subsec_micros(), 345_678);
    assert_eq!(source.offset, 1_700_000_000_000_000);
}
