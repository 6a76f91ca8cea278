//! Segments: the byte ranges into which the shapes of a picture cut its
//! sample stream.

use vstd::prelude::*;

verus! {

/// A half-open byte range `[start, end)` of a picture's sample stream that
/// holds one shape.
pub type Segment = (usize, usize);

/// Whether `segments` cut `[0, total)` into consecutive ranges, each of them a
/// whole number of sample frames.
pub open spec fn partitions(segments: Seq<Segment>, total: int) -> bool {
    &&& segments.len() == 0 ==> total == 0
    &&& segments.len() > 0 ==> segments[0].0 == 0 && segments.last().1 == total
    &&& forall|i: int|
        0 <= i < segments.len() ==> {
            &&& (#[trigger] segments[i]).0 <= segments[i].1
            &&& segments[i].0 % 4 == 0
            &&& segments[i].1 % 4 == 0
        }
    &&& forall|i: int|
        0 <= i < segments.len() - 1 ==> (#[trigger] segments[i]).1 == segments[i + 1].0
}

/// Sum of the lengths of the segments.
pub open spec fn covered(segments: Seq<Segment>) -> int
    decreases segments.len(),
{
    if segments.len() == 0 {
        0
    } else {
        covered(segments.drop_last()) + (segments.last().1 - segments.last().0)
    }
}

/// A copy of a list of segments.
pub fn copy_segments(segments: &Vec<Segment>) -> (copy: Vec<Segment>)
    ensures
        copy@ == segments@,
{
    let mut copy: Vec<Segment> = Vec::new();
    let mut i: usize = 0;
    while i < segments.len()
        invariant
            i <= segments.len(),
            copy@ == segments@.take(i as int),
        decreases segments.len() - i,
    {
        copy.push(segments[i]);
        assert(copy@ =~= segments@.take(i + 1));
        i += 1;
    }
    assert(copy@ =~= segments@);
    copy
}

/// Consecutive ranges do not overlap: each one ends where a later one begins,
/// or before.
pub proof fn lemma_segments_ordered(segments: Seq<Segment>, total: int, i: int, j: int)
    requires
        partitions(segments, total),
        0 <= i < j < segments.len(),
    ensures
        segments[i].1 <= segments[j].0,
    decreases j - i,
{
    if i + 1 < j {
        lemma_segments_ordered(segments, total, i, j - 1);
        assert(segments[j - 1].1 == segments[j].0);
        assert(segments[j - 1].0 <= segments[j - 1].1);
    } else {
        assert(segments[i].1 == segments[i + 1].0);
    }
}

/// The segments of a picture cut `[0, total)` into ordered, consecutive ranges
/// that do not overlap, and the lengths of the ranges add up to `total`.
pub proof fn lemma_segments_partition(segments: Seq<Segment>, total: int)
    requires
        partitions(segments, total),
    ensures
        covered(segments) == total,
        forall|i: int|
            0 <= i < segments.len() ==> 0 <= (#[trigger] segments[i]).0 <= segments[i].1 <= total,
        forall|i: int, j: int|
            0 <= i < j < segments.len() ==> (#[trigger] segments[i]).1 <= (
            #[trigger] segments[j]).0,
        forall|i: int|
            0 <= i < segments.len() - 1 ==> (#[trigger] segments[i]).1 == segments[i + 1].0,
    decreases segments.len(),
{
    if segments.len() > 0 {
        let last = segments.len() - 1;
        let front = segments.drop_last();
        assert(segments[last].0 <= segments[last].1);
        if last > 0 {
            assert(segments[last - 1].1 == segments[last].0);
            assert(front.last() == segments[last - 1]);
            assert(front[0] == segments[0]);
        } else {
            assert(segments[0].0 == 0);
        }
        assert forall|i: int| 0 <= i < front.len() - 1 implies (#[trigger] front[i]).1 == front[i
            + 1].0 by {
            assert(front[i] == segments[i]);
            assert(front[i + 1] == segments[i + 1]);
        }
        assert(partitions(front, segments[last].0 as int));
        lemma_segments_partition(front, segments[last].0 as int);
        assert forall|i: int, j: int| 0 <= i < j < segments.len() implies (
        #[trigger] segments[i]).1 <= (#[trigger] segments[j]).0 by {
            lemma_segments_ordered(segments, total, i, j);
        }
        assert forall|i: int| 0 <= i < segments.len() implies 0 <= (#[trigger] segments[i]).0
            <= segments[i].1 <= total by {
            if i < last {
                lemma_segments_ordered(segments, total, i, last);
            }
        }
    }
}

} // verus!
