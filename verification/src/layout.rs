//! The layout of the face in directions and distances from its centre. What
//! is laid out here becomes coordinates by sine and cosine, outside of this
//! crate.

use crate::clock::{direction_of_position, position_direction, CivilTime, DIAL_POSITIONS, TURN};
use vstd::prelude::*;

verus! {

/// Coordinate, on both axes, of the centre of the face.
pub const CENTER: isize = 260;

/// Radius of the outer ring.
pub const BEZEL_RADIUS: u16 = 250;

/// Vertices of the outer ring.
pub const BEZEL_NODES: u32 = 40;

/// Radius of the ornament at the centre.
pub const HUB_RADIUS: u16 = 20;

/// Vertices of the ornament at the centre.
pub const HUB_NODES: u32 = 10;

/// Radius at which the marks of the dial lie.
pub const MARK_RADIUS: u16 = 176;

/// Radius at which the numbers of the hours lie.
pub const NUMERAL_RADIUS: u16 = 216;

/// Radius of the ring of an hour mark.
pub const RING_RADIUS: u16 = 5;

/// Vertices of one round of the ring of an hour mark. The ring is gone round
/// twice, which makes it brighter.
pub const RING_NODES: u32 = 8;

/// Radius of the inner end of the second hand.
pub const SECOND_HAND_INNER: u16 = 31;

/// Radius of the outer end of the second hand.
pub const SECOND_HAND_OUTER: u16 = 191;

/// Distance of the indicator from the centre.
pub const INDICATOR_RADIUS: u16 = 80;

/// A place on the face: a direction in steps of a turn, clockwise from
/// straight up, and a distance from the centre.
#[derive(Clone, Copy, Debug, PartialEq, Eq, Structural)]
pub struct Polar {
    pub direction: u32,
    pub radius: u16,
}

/// The shape of a hand: a lozenge from the hub over one shoulder to the tip
/// and back over the other shoulder.
#[derive(Clone, Copy, Debug, PartialEq, Eq, Structural)]
pub struct HandShape {
    /// Radius at which the hand begins.
    pub hub: u16,
    /// Radius of the two shoulders.
    pub shoulder: u16,
    /// Radius of the tip.
    pub tip: u16,
    /// Steps of a turn by which a shoulder stands off the hand's direction.
    pub spread: u32,
}

/// Where the shapes lie that depend on the time.
pub struct HandsLayout {
    /// The second hand, from its inner end to its outer end.
    pub second: (Polar, Polar),
    /// The outline of the minute hand.
    pub minute: Vec<Polar>,
    /// The outline of the hour hand.
    pub hour: Vec<Polar>,
    /// The place of the indicator. There is none while the hour hand and the
    /// minute hand point in opposite directions.
    pub indicator: Option<Polar>,
}

/// The direction that lies `by` steps clockwise of `direction`.
pub open spec fn turned(direction: int, by: int) -> int {
    (direction + by) % 180_000
}

/// The shape of the minute hand. Its shoulders stand off by a tenth of a
/// radian.
pub open spec fn minute_hand_shape() -> HandShape {
    HandShape { hub: 32, shoulder: 80, tip: 160, spread: 2865 }
}

/// The shape of the hour hand. Its shoulders stand off by three tenths of a
/// radian.
pub open spec fn hour_hand_shape() -> HandShape {
    HandShape { hub: 32, shoulder: 64, tip: 128, spread: 8594 }
}

/// The outline of a hand that points in `direction`: hub, the shoulder
/// before the hand, tip, the shoulder behind it.
pub open spec fn outline_of(direction: int, shape: HandShape) -> Seq<Polar> {
    seq![
        Polar { direction: direction as u32, radius: shape.hub },
        Polar { direction: turned(direction, -shape.spread) as u32, radius: shape.shoulder },
        Polar { direction: direction as u32, radius: shape.tip },
        Polar { direction: turned(direction, shape.spread as int) as u32, radius: shape.shoulder },
    ]
}

/// The directions of `count` vertices that are spaced as `nodes` vertices on
/// a circle are, from straight up on.
pub open spec fn circle_of(nodes: int, count: int) -> Seq<u32> {
    Seq::new(count as nat, |k: int| ((k * 180_000 / nodes) % 180_000) as u32)
}

/// The direction midway between two hands, on the side on which they are
/// less than half a turn apart.
pub open spec fn between(first: int, second: int) -> int {
    let apart = turned(second, -first);
    if apart < 90_000 {
        turned(first, apart / 2)
    } else {
        turned(first, apart / 2 + 90_000)
    }
}

/// The direction of the indicator: opposite the direction midway between the
/// hour hand and the minute hand. There is none while the hands point in
/// opposite directions.
pub open spec fn indicator_direction_of(hour: int, minute: int) -> Option<u32> {
    if turned(minute, -hour) == 90_000 {
        None
    } else {
        Some(turned(between(hour, minute), 90_000) as u32)
    }
}

/// Where the hands and the indicator lie at `time`.
pub open spec fn hands_layout_of(time: CivilTime) -> (
    (Polar, Polar),
    Seq<Polar>,
    Seq<Polar>,
    Option<Polar>,
) {
    (
        (
            Polar { direction: time.second_direction() as u32, radius: SECOND_HAND_INNER },
            Polar { direction: time.second_direction() as u32, radius: SECOND_HAND_OUTER },
        ),
        outline_of(time.minute_direction(), minute_hand_shape()),
        outline_of(time.hour_direction(), hour_hand_shape()),
        match indicator_direction_of(time.hour_direction(), time.minute_direction()) {
            Some(direction) => Some(Polar { direction, radius: INDICATOR_RADIUS }),
            None => None,
        },
    )
}

/// The shape of the minute hand.
pub fn minute_hand() -> (shape: HandShape)
    ensures
        shape == minute_hand_shape(),
{
    HandShape { hub: 32, shoulder: 80, tip: 160, spread: 2865 }
}

/// The shape of the hour hand.
pub fn hour_hand() -> (shape: HandShape)
    ensures
        shape == hour_hand_shape(),
{
    HandShape { hub: 32, shoulder: 64, tip: 128, spread: 8594 }
}

/// The direction that lies `by` steps clockwise of `direction`.
pub fn turn(direction: u32, by: u32) -> (to: u32)
    requires
        direction < TURN,
        by < TURN,
    ensures
        to == turned(direction as int, by as int),
        to < TURN,
{
    (direction + by) % TURN
}

/// The direction that lies `by` steps counterclockwise of `direction`.
pub fn turn_back(direction: u32, by: u32) -> (to: u32)
    requires
        direction < TURN,
        by < TURN,
    ensures
        to == turned(direction as int, -(by as int)),
        to < TURN,
{
    if by <= direction {
        direction - by
    } else {
        direction + TURN - by
    }
}

/// The outline of a hand that points in `direction`.
pub fn hand_outline(direction: u32, shape: HandShape) -> (outline: Vec<Polar>)
    requires
        direction < TURN,
        shape.spread < TURN,
    ensures
        outline@ == outline_of(direction as int, shape),
        forall|i: int| 0 <= i < outline.len() ==> (#[trigger] outline[i]).direction < TURN,
{
    let mut outline: Vec<Polar> = Vec::new();
    outline.push(Polar { direction, radius: shape.hub });
    outline.push(Polar { direction: turn_back(direction, shape.spread), radius: shape.shoulder });
    outline.push(Polar { direction, radius: shape.tip });
    outline.push(Polar { direction: turn(direction, shape.spread), radius: shape.shoulder });
    assert(outline@ =~= outline_of(direction as int, shape));
    outline
}

/// The directions of `count` vertices that are spaced as `nodes` vertices on
/// a circle are.
pub fn circle_directions(nodes: u32, count: u32) -> (directions: Vec<u32>)
    requires
        0 < nodes,
    ensures
        directions@ == circle_of(nodes as int, count as int),
        forall|i: int| 0 <= i < directions.len() ==> #[trigger] directions[i] < TURN,
{
    let mut directions: Vec<u32> = Vec::new();
    let mut k: u32 = 0;
    while k < count
        invariant
            k <= count,
            0 < nodes,
            directions@ == circle_of(nodes as int, count as int).take(k as int),
            forall|i: int| 0 <= i < directions.len() ==> #[trigger] directions[i] < TURN,
        decreases count - k,
    {
        let direction = ((k as u64 * TURN as u64 / nodes as u64) % TURN as u64) as u32;
        directions.push(direction);
        assert(directions@ =~= circle_of(nodes as int, count as int).take(k + 1));
        k += 1;
    }
    assert(directions@ =~= circle_of(nodes as int, count as int));
    directions
}

/// The direction of the indicator for hands that point in the directions
/// `hour` and `minute`.
pub fn indicator_direction(hour: u32, minute: u32) -> (direction: Option<u32>)
    requires
        hour < TURN,
        minute < TURN,
    ensures
        direction == indicator_direction_of(hour as int, minute as int),
        direction matches Some(d) ==> d < TURN,
{
    let apart = turn_back(minute, hour);
    if apart == TURN / 2 {
        return None;
    }
    proof {
        lemma_turned(hour as int, apart as int / 2);
        lemma_turned(hour as int, apart as int / 2 + 90_000);
    }
    let midway = if apart < TURN / 2 {
        turn(hour, apart / 2)
    } else {
        turn(hour, apart / 2 + TURN / 2)
    };
    Some(turn(midway, TURN / 2))
}

/// Where the mark of a position of the dial lies.
pub fn mark_place(position: u8) -> (place: Polar)
    requires
        position < DIAL_POSITIONS,
    ensures
        place == (Polar {
            direction: position_direction(position as int) as u32,
            radius: MARK_RADIUS,
        }),
{
    Polar { direction: direction_of_position(position), radius: MARK_RADIUS }
}

/// Where the number of a position of the dial lies.
pub fn numeral_place(position: u8) -> (place: Polar)
    requires
        position < DIAL_POSITIONS,
    ensures
        place == (Polar {
            direction: position_direction(position as int) as u32,
            radius: NUMERAL_RADIUS,
        }),
{
    Polar { direction: direction_of_position(position), radius: NUMERAL_RADIUS }
}

/// Where the hands and the indicator lie at `time`.
pub fn hands_layout(time: &CivilTime) -> (layout: HandsLayout)
    requires
        time.wf(),
    ensures
        (layout.second, layout.minute@, layout.hour@, layout.indicator) == hands_layout_of(*time),
{
    let second = time.second_hand();
    let minute = time.minute_hand();
    let hour = time.hour_hand();
    HandsLayout {
        second: (
            Polar { direction: second, radius: SECOND_HAND_INNER },
            Polar { direction: second, radius: SECOND_HAND_OUTER },
        ),
        minute: hand_outline(minute, minute_hand()),
        hour: hand_outline(hour, hour_hand()),
        indicator: match indicator_direction(hour, minute) {
            Some(direction) => Some(Polar { direction, radius: INDICATOR_RADIUS }),
            None => None,
        },
    }
}

/// What `turned` comes to within a turn of the range of directions.
proof fn lemma_turned(direction: int, by: int)
    requires
        -180_000 <= direction + by < 360_000,
    ensures
        0 <= direction + by < 180_000 ==> turned(direction, by) == direction + by,
        direction + by < 0 ==> turned(direction, by) == direction + by + 180_000,
        180_000 <= direction + by ==> turned(direction, by) == direction + by - 180_000,
{
}

/// The direction midway between two hands is the same whichever of them is
/// named first.
pub proof fn lemma_between_is_symmetric(first: int, second: int)
    requires
        0 <= first < 180_000,
        0 <= second < 180_000,
        turned(second, -first) != 90_000,
    ensures
        between(first, second) == between(second, first),
{
    let ahead = turned(second, -first);
    let behind = turned(first, -second);
    lemma_turned(second, -first);
    lemma_turned(first, -second);
    if first == second {
        assert(ahead == 0 && behind == 0);
        lemma_turned(first, 0);
    } else {
        assert(ahead + behind == 180_000);
        if ahead < 90_000 {
            assert(behind / 2 + 90_000 == 180_000 - (ahead + 1) / 2);
            lemma_turned(first, ahead / 2);
            lemma_turned(second, behind / 2 + 90_000);
        } else {
            assert(ahead / 2 + 90_000 == 180_000 - (behind + 1) / 2);
            lemma_turned(first, ahead / 2 + 90_000);
            lemma_turned(second, behind / 2);
        }
    }
}

/// The indicator stands where it stands with the two hands exchanged.
pub proof fn lemma_indicator_is_symmetric(first: int, second: int)
    requires
        0 <= first < 180_000,
        0 <= second < 180_000,
    ensures
        indicator_direction_of(first, second) == indicator_direction_of(second, first),
{
    lemma_turned(second, -first);
    lemma_turned(first, -second);
    if turned(second, -first) != 90_000 {
        lemma_between_is_symmetric(first, second);
    }
}

/// The direction midway between two hands is no further than a quarter turn
/// from either of them.
pub proof fn lemma_between_is_near(first: int, second: int)
    requires
        0 <= first < 180_000,
        0 <= second < 180_000,
        turned(second, -first) != 90_000,
    ensures
        turned(between(first, second), -first) < 45_000 || turned(
            first,
            -between(first, second),
        ) <= 45_000,
        turned(second, -between(first, second)) <= 45_000 || turned(
            between(first, second),
            -second,
        ) < 45_000,
{
    let apart = turned(second, -first);
    let midway = between(first, second);
    lemma_turned(second, -first);
    if apart < 90_000 {
        lemma_turned(first, apart / 2);
    } else {
        lemma_turned(first, apart / 2 + 90_000);
    }
    lemma_turned(midway, -first);
    lemma_turned(first, -midway);
    lemma_turned(second, -midway);
    lemma_turned(midway, -second);
}

} // verus!
