//! The hardware sample format and the mapping from working-space coordinates
//! to the values of the two deflection channels.

use vstd::prelude::*;

verus! {

/// A coordinate pair in working space.
pub type Point = (isize, isize);

/// Bytes of one serialized sample: a reserved zero byte and the channel value,
/// once for X and once for Y.
pub const FRAME_BYTES: usize = 4;

/// How many working-space steps lie between two neighbouring hardware steps.
#[derive(Clone, Copy, Debug, PartialEq, Eq, Structural)]
pub enum Oversampling {
    /// Working space is the hardware's own resolution.
    Native,
    /// Working space has twice the hardware's resolution; an odd coordinate is
    /// shown by alternating between its two neighbouring hardware steps.
    Double,
}

impl Oversampling {
    /// Bytes that one working-space point occupies in the sample stream.
    pub open spec fn point_bytes(self) -> nat {
        match self {
            Oversampling::Native => 4,
            Oversampling::Double => 8,
        }
    }

    /// Bytes that one working-space point occupies in the sample stream.
    pub fn bytes_per_point(self) -> (n: usize)
        ensures
            n == self.point_bytes(),
    {
        match self {
            Oversampling::Native => FRAME_BYTES,
            Oversampling::Double => 2 * FRAME_BYTES,
        }
    }
}

/// The serialized form of one hardware sample.
pub open spec fn frame(x: u8, y: u8) -> Seq<u8> {
    seq![0u8, x, 0u8, y]
}

/// Channel value of a coordinate that is already in hardware resolution.
pub open spec fn native_step(c: int) -> u8 {
    (c % 256) as u8
}

/// Channel value of half the coordinate, rounded down.
pub open spec fn low_step(c: int) -> u8 {
    ((c / 2) % 256) as u8
}

/// Channel value of half the coordinate, rounded up.
pub open spec fn high_step(c: int) -> u8 {
    (((c + 1) / 2) % 256) as u8
}

/// The samples that show one working-space point.
pub open spec fn point_samples(x: int, y: int, oversampling: Oversampling) -> Seq<u8> {
    match oversampling {
        Oversampling::Native => frame(native_step(x), native_step(y)),
        Oversampling::Double => frame(low_step(x), low_step(y)) + frame(
            high_step(x),
            high_step(y),
        ),
    }
}

/// The samples that show a run of working-space points, one after the other.
pub open spec fn points_samples(points: Seq<Point>, oversampling: Oversampling) -> Seq<u8>
    decreases points.len(),
{
    if points.len() == 0 {
        Seq::empty()
    } else {
        points_samples(points.drop_last(), oversampling) + point_samples(
            points.last().0 as int,
            points.last().1 as int,
            oversampling,
        )
    }
}

/// A run of points takes the same number of bytes for each point.
pub proof fn lemma_points_samples_len(points: Seq<Point>, oversampling: Oversampling)
    ensures
        points_samples(points, oversampling).len() == points.len() * oversampling.point_bytes(),
    decreases points.len(),
{
    if points.len() > 0 {
        lemma_points_samples_len(points.drop_last(), oversampling);
        assert(points.len() * oversampling.point_bytes() == (points.len() - 1)
            * oversampling.point_bytes() + oversampling.point_bytes()) by (nonlinear_arith);
    }
}

/// The channel values of a coordinate depend on its low sixteen bits only.
pub proof fn lemma_steps_ignore_high_bits(c: int)
    ensures
        native_step(c % 65536) == native_step(c),
        low_step(c % 65536) == low_step(c),
        high_step(c % 65536) == high_step(c),
{
    let q = c / 65536;
    let w = c % 65536;
    assert(c == 65536 * q + w);
    assert(c % 256 == w % 256) by {
        vstd::arithmetic::div_mod::lemma_mod_multiples_vanish(256 * q, w, 256);
    }
    assert(c / 2 == 32768 * q + w / 2) by {
        vstd::arithmetic::div_mod::lemma_fundamental_div_mod_converse(
            c,
            2,
            32768 * q + w / 2,
            w % 2,
        );
    }
    assert((c / 2) % 256 == (w / 2) % 256) by {
        vstd::arithmetic::div_mod::lemma_mod_multiples_vanish(128 * q, w / 2, 256);
    }
    assert((c + 1) / 2 == 32768 * q + (w + 1) / 2) by {
        vstd::arithmetic::div_mod::lemma_fundamental_div_mod_converse(
            c + 1,
            2,
            32768 * q + (w + 1) / 2,
            (w + 1) % 2,
        );
    }
    assert(((c + 1) / 2) % 256 == ((w + 1) / 2) % 256) by {
        vstd::arithmetic::div_mod::lemma_mod_multiples_vanish(128 * q, (w + 1) / 2, 256);
    }
}

/// Reduces a coordinate to the sixteen bits that the encoder looks at.
pub fn wrap_coordinate(c: isize) -> (w: u16)
    ensures
        w as int == (c as int) % 65536,
{
    if c >= 0 {
        (c % 65536) as u16
    } else {
        let below: isize = -(c + 1);
        let r: isize = below % 65536;
        proof {
            let q = (below as int) / 65536;
            assert(below as int == 65536 * q + r);
            vstd::arithmetic::div_mod::lemma_fundamental_div_mod_converse(
                c as int,
                65536,
                -q - 1,
                65535 - r,
            );
        }
        (65535 - r) as u16
    }
}

/// The channel values of one coordinate: its only value in native resolution,
/// the lower and the upper neighbour in doubled resolution.
pub fn channel_steps(c: u16, oversampling: Oversampling) -> (steps: (u8, u8))
    ensures
        oversampling == Oversampling::Native ==> steps.0 == native_step(c as int) && steps.1
            == steps.0,
        oversampling == Oversampling::Double ==> steps.0 == low_step(c as int) && steps.1
            == high_step(c as int),
{
    match oversampling {
        Oversampling::Native => {
            let v: u8 = (c % 256) as u8;
            (v, v)
        },
        Oversampling::Double => {
            let low: u8 = ((c / 2) % 256) as u8;
            let up: u32 = (c as u32 + 1) / 2;
            let high: u8 = (up % 256) as u8;
            (low, high)
        },
    }
}

} // verus!
