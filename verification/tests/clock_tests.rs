use scopeclock::clock::{
    direction_of_position, local_time, mark_at, CivilTime, Indicator, Mark, DIAL_POSITIONS, TURN,
};

fn at(hour: u32, minute: u32, second: u32, millisecond: u32) -> CivilTime {
    CivilTime::from_fields(hour, minute, second, millisecond, 24, 12).unwrap()
}

#[test]
fn hands_point_up_at_midnight() {
    let t = at(0, 0, 0, 0);
    assert_eq!(t.second_hand(), 0);
    assert_eq!(t.minute_hand(), 0);
    assert_eq!(t.hour_hand(), 0);
    assert_eq!(t.second_hand(), direction_of_position(0));
}

#[test]
fn hands_creep_just_after_midnight() {
    let t = at(0, 0, 30, 500);
    assert_eq!(t.second_hand(), 91_500);
    assert_eq!(t.minute_hand(), 1_500);
    assert_eq!(t.hour_hand(), 0);
    let t = at(0, 30, 0, 0);
    assert_eq!(t.minute_hand(), TURN / 2);
    assert_eq!(t.hour_hand(), 7_500);
}

#[test]
fn hour_hand_is_a_quarter_turn_on_at_three() {
    let midnight = at(0, 0, 0, 0);
    let three = at(3, 0, 0, 0);
    assert_eq!(three.hour_hand(), midnight.hour_hand() + TURN / 4);
    assert_eq!(three.hour_hand(), 45_000);
    assert_eq!(three.hour_hand(), direction_of_position(15));
    assert_eq!(at(15, 0, 0, 0).hour_hand(), 45_000);
}

#[test]
fn at_half_past_six_the_hour_hand_is_midway_between_six_and_seven() {
    let t = at(6, 30, 0, 0);
    assert_eq!(t.minute_hand(), direction_of_position(30));
    assert_eq!(t.minute_hand(), 90_000);
    assert_eq!(t.hour_hand(), 97_500);
    assert_eq!(2 * t.hour_hand(), direction_of_position(30) + direction_of_position(35));
    assert_eq!(t.second_hand(), 0);
}

#[test]
fn hands_stay_below_a_full_turn() {
    let t = at(23, 59, 59, 999);
    assert_eq!(t.second_hand(), 179_997);
    assert_eq!(t.minute_hand(), 179_950);
    assert_eq!(t.hour_hand(), 179_750);
    let leap = at(23, 59, 59, 1999);
    assert_eq!(leap.second_hand(), 2_997);
}

#[test]
fn date_shows_in_the_second_half_of_ten_seconds() {
    let t = at(14, 3, 7, 0);
    assert_eq!(t.select_indicator(), Indicator::Date { day: 24, month: 12 });
    assert_eq!(at(14, 3, 5, 0).select_indicator(), Indicator::Date { day: 24, month: 12 });
    assert_eq!(at(14, 3, 59, 0).select_indicator(), Indicator::Date { day: 24, month: 12 });
}

#[test]
fn half_of_the_day_shows_in_the_first_half_of_ten_seconds() {
    assert_eq!(at(14, 3, 2, 0).select_indicator(), Indicator::Meridiem { pm: true });
    assert_eq!(at(9, 3, 2, 0).select_indicator(), Indicator::Meridiem { pm: false });
    assert_eq!(at(12, 0, 4, 999).select_indicator(), Indicator::Meridiem { pm: true });
    assert_eq!(at(11, 59, 50, 0).select_indicator(), Indicator::Meridiem { pm: false });
    assert!(at(12, 0, 0, 0).is_pm());
    assert!(!at(0, 0, 0, 0).is_pm());
}

#[test]
fn fields_out_of_range_are_no_instant() {
    assert!(CivilTime::from_fields(24, 0, 0, 0, 1, 1).is_none());
    assert!(CivilTime::from_fields(0, 60, 0, 0, 1, 1).is_none());
    assert!(CivilTime::from_fields(0, 0, 60, 0, 1, 1).is_none());
    assert!(CivilTime::from_fields(0, 0, 0, 2000, 1, 1).is_none());
    assert!(CivilTime::from_fields(0, 0, 0, 0, 0, 1).is_none());
    assert!(CivilTime::from_fields(0, 0, 0, 0, 32, 1).is_none());
    assert!(CivilTime::from_fields(0, 0, 0, 0, 1, 0).is_none());
    assert!(CivilTime::from_fields(0, 0, 0, 0, 1, 13).is_none());
    assert!(CivilTime::from_fields(256, 0, 0, 0, 1, 1).is_none());
    assert_eq!(
        CivilTime::from_fields(23, 59, 59, 1999, 31, 12),
        Some(CivilTime { hour: 23, minute: 59, second: 59, millisecond: 1999, day: 31, month: 12 })
    );
}

#[test]
fn every_fifth_position_bears_an_hour() {
    assert_eq!(mark_at(0), Mark::Hour { number: 12 });
    assert_eq!(mark_at(5), Mark::Hour { number: 1 });
    assert_eq!(mark_at(55), Mark::Hour { number: 11 });
    assert_eq!(mark_at(1), Mark::Minute);
    assert_eq!(mark_at(59), Mark::Minute);
    let hours = (0..DIAL_POSITIONS).filter(|p| mark_at(*p) != Mark::Minute).count();
    assert_eq!(hours, 12);
    assert_eq!(direction_of_position(15), TURN / 4);
    assert_eq!(direction_of_position(59), 177_000);
}

#[test]
fn winter_time_in_berlin_is_an_hour_ahead() {
    // 2024-01-01 00:00:00 UTC
    let t = local_time(1_704_067_200, 250_000).unwrap();
    assert_eq!(
        t,
        CivilTime { hour: 1, minute: 0, second: 0, millisecond: 250, day: 1, month: 1 }
    );
}

#[test]
fn summer_time_in_berlin_is_two_hours_ahead() {
    // 2024-06-30 22:30:15 UTC
    let t = local_time(1_719_786_615, 999_999).unwrap();
    assert_eq!(
        t,
        CivilTime { hour: 0, minute: 30, second: 15, millisecond: 999, day: 1, month: 7 }
    );
}

#[test]
fn readings_that_are_none_have_no_local_time() {
    assert!(local_time(0, 1_000_000).is_none());
    assert!(local_time(u64::MAX, 0).is_none());
    assert!(local_time(i64::MAX as u64, 0).is_none());
    assert_eq!(
        local_time(0, 0),
        Some(CivilTime { hour: 1, minute: 0, second: 0, millisecond: 0, day: 1, month: 1 })
    );
}
