use scopeclock::clock::{CivilTime, TURN};
use scopeclock::layout::{
    circle_directions, hand_outline, hands_layout, hour_hand, indicator_direction, mark_place,
    minute_hand, numeral_place, turn, turn_back, HandShape, Polar, BEZEL_NODES, INDICATOR_RADIUS,
    MARK_RADIUS, NUMERAL_RADIUS, RING_NODES, SECOND_HAND_INNER, SECOND_HAND_OUTER,
};

#[test]
fn directions_wrap_round_the_turn() {
    assert_eq!(turn(0, 0), 0);
    assert_eq!(turn(179_999, 1), 0);
    assert_eq!(turn(100_000, 100_000), 20_000);
    assert_eq!(turn_back(0, 1), 179_999);
    assert_eq!(turn_back(5, 5), 0);
    assert_eq!(turn_back(20_000, 100_000), 100_000);
}

#[test]
fn hand_is_a_lozenge() {
    assert_eq!(minute_hand(), HandShape { hub: 32, shoulder: 80, tip: 160, spread: 2865 });
    assert_eq!(hour_hand(), HandShape { hub: 32, shoulder: 64, tip: 128, spread: 8594 });
    assert_eq!(
        hand_outline(45_000, minute_hand()),
        vec![
            Polar { direction: 45_000, radius: 32 },
            Polar { direction: 42_135, radius: 80 },
            Polar { direction: 45_000, radius: 160 },
            Polar { direction: 47_865, radius: 80 },
        ]
    );
    assert_eq!(
        hand_outline(0, hour_hand()),
        vec![
            Polar { direction: 0, radius: 32 },
            Polar { direction: 171_406, radius: 64 },
            Polar { direction: 0, radius: 128 },
            Polar { direction: 8_594, radius: 64 },
        ]
    );
}

#[test]
fn circles_are_evenly_spaced() {
    let bezel = circle_directions(BEZEL_NODES, BEZEL_NODES);
    assert_eq!(bezel.len(), 40);
    assert_eq!(&bezel[..3], &[0, 4_500, 9_000]);
    assert_eq!(bezel[39], 175_500);
    let ring = circle_directions(RING_NODES, 2 * RING_NODES);
    assert_eq!(ring.len(), 16);
    assert_eq!(ring[1], 22_500);
    assert_eq!(ring[8], 0);
    assert_eq!(ring[15], 157_500);
    assert_eq!(circle_directions(7, 3), vec![0, 25_714, 51_428]);
    assert!(circle_directions(7, 0).is_empty());
    assert_eq!(circle_directions(1, 3), vec![0, 0, 0]);
    assert_eq!(circle_directions(u32::MAX, 2), vec![0, 0]);
    assert_eq!(circle_directions(3, 4), vec![0, 60_000, 120_000, 0]);
}

#[test]
fn marks_and_numbers_lie_on_two_circles() {
    assert_eq!(mark_place(0), Polar { direction: 0, radius: MARK_RADIUS });
    assert_eq!(mark_place(15), Polar { direction: TURN / 4, radius: 176 });
    assert_eq!(numeral_place(59), Polar { direction: 177_000, radius: NUMERAL_RADIUS });
    assert_eq!(numeral_place(30), Polar { direction: 90_000, radius: 216 });
}

#[test]
fn indicator_keeps_out_of_the_way_of_the_hands() {
    // Both hands up: the indicator is below.
    assert_eq!(indicator_direction(0, 0), Some(90_000));
    // Hour hand up, minute hand to the right: the indicator is low on the left.
    assert_eq!(indicator_direction(0, 45_000), Some(112_500));
    assert_eq!(indicator_direction(45_000, 0), Some(112_500));
    // Hour hand up, minute hand to the left: the indicator is low on the right.
    assert_eq!(indicator_direction(0, 135_000), Some(67_500));
    assert_eq!(indicator_direction(135_000, 0), Some(67_500));
    // Opposite hands leave no side to flee to.
    assert_eq!(indicator_direction(0, 90_000), None);
    assert_eq!(indicator_direction(100_000, 10_000), None);
    assert_eq!(indicator_direction(0, 89_999), Some(134_999));
    assert_eq!(indicator_direction(0, 90_001), Some(45_000));
    assert_eq!(indicator_direction(179_999, 179_999), Some(89_999));
    assert_eq!(indicator_direction(179_999, 1), Some(90_000));
}

#[test]
fn hands_are_laid_out_from_the_time() {
    let time = CivilTime::from_fields(3, 0, 15, 0, 1, 1).unwrap();
    let layout = hands_layout(&time);
    assert_eq!(
        layout.second,
        (
            Polar { direction: 45_000, radius: SECOND_HAND_INNER },
            Polar { direction: 45_000, radius: SECOND_HAND_OUTER }
        )
    );
    assert_eq!(layout.minute, hand_outline(750, minute_hand()));
    assert_eq!(layout.hour, hand_outline(45_000, hour_hand()));
    assert_eq!(layout.indicator, Some(Polar { direction: 112_875, radius: INDICATOR_RADIUS }));
    let six = CivilTime::from_fields(18, 0, 0, 0, 1, 1).unwrap();
    assert_eq!(hands_layout(&six).indicator, None);
}
