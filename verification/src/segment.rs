//! The stretches of a call that are scored one by one.

use vstd::prelude::*;
use crate::config::AudioAnalysisMode;
use crate::network::{strictly_increasing, NetworkConfigWithOffset};

verus! {

/// A stretch of a call, from `start_ms` up to but not including `end_ms`, both counted
/// from the start of the call.
#[derive(Clone, Copy, Debug, PartialEq, Eq, Structural)]
pub struct Segment {
    pub start_ms: u64,
    pub end_ms: u64,
}

/// Where in a reference sound of `reference_ms` that is played over and over from the
/// start of the call a segment begins. A reference without length is not looped.
pub open spec fn reference_phase(segment: Segment, reference_ms: u64) -> int {
    if reference_ms == 0 {
        0
    } else {
        (segment.start_ms % reference_ms) as int
    }
}

impl Segment {
    /// The length of the segment; zero if it ends before it starts.
    pub fn length_ms(&self) -> (r: u64)
        ensures
            r == if self.start_ms <= self.end_ms {
                self.end_ms - self.start_ms
            } else {
                0
            },
    {
        if self.start_ms <= self.end_ms {
            self.end_ms - self.start_ms
        } else {
            0
        }
    }

    /// Where in the looped reference sound the segment begins: the slice of the
    /// reference that the segment is scored against starts there.
    pub fn reference_phase(&self, reference_ms: u64) -> (r: u64)
        ensures
            r == reference_phase(*self, reference_ms),
            reference_ms > 0 ==> r < reference_ms,
    {
        if reference_ms == 0 {
            0
        } else {
            self.start_ms % reference_ms
        }
    }
}

/// The stretch from `start` to `end`.
pub open spec fn stretch(start: int, end: int) -> Segment {
    Segment { start_ms: start as u64, end_ms: end as u64 }
}

/// The stretch from `start` to `end` cut into pieces of `length`, the last of which
/// may be shorter. A `length` of zero leaves the stretch whole; an empty stretch has
/// no pieces.
pub open spec fn split(start: int, end: int, length: int) -> Seq<Segment>
    decreases end - start,
{
    if start >= end {
        Seq::empty()
    } else if length <= 0 || end - start <= length {
        seq![stretch(start, end)]
    } else {
        seq![stretch(start, start + length)] + split(start + length, end, length)
    }
}

/// The points of a call at which its conditions change: the offsets of the timeline,
/// or the start of the call alone where nothing is emulated.
pub open spec fn boundaries(timeline: Seq<NetworkConfigWithOffset>) -> Seq<int> {
    if timeline.len() == 0 {
        seq![0int]
    } else {
        Seq::new(timeline.len(), |i: int| timeline[i].offset_ms as int)
    }
}

/// Where the stretch that begins at the `k`-th boundary ends: at the next boundary,
/// or with the call.
pub open spec fn interval_end(bounds: Seq<int>, duration: int, k: int) -> int {
    if k + 1 < bounds.len() {
        bounds[k + 1]
    } else {
        duration
    }
}

/// The pieces of the stretches that begin at the first `count` boundaries.
pub open spec fn chop_first(bounds: Seq<int>, duration: int, length: int, count: int) -> Seq<
    Segment,
>
    decreases count,
{
    if count <= 0 {
        Seq::empty()
    } else {
        chop_first(bounds, duration, length, count - 1) + split(
            bounds[count - 1],
            interval_end(bounds, duration, count - 1),
            length,
        )
    }
}

/// A call of `duration` cut at the offsets of `timeline` and then into pieces of
/// `length`.
pub open spec fn chopped(timeline: Seq<NetworkConfigWithOffset>, duration: int, length: int) -> Seq<
    Segment,
> {
    chop_first(boundaries(timeline), duration, length, boundaries(timeline).len() as int)
}

/// The segments that are scored for a call: the call as a whole, or its pieces.
pub open spec fn scoring_segments(
    mode: AudioAnalysisMode,
    timeline: Seq<NetworkConfigWithOffset>,
    duration: int,
    length: int,
) -> Seq<Segment> {
    match mode {
        AudioAnalysisMode::Full => seq![stretch(0, duration)],
        AudioAnalysisMode::Chopped => chopped(timeline, duration, length),
    }
}

/// Whether `timeline` is what a call of `duration` is scheduled with: ordered, and
/// every change within the call.
pub open spec fn fits(timeline: Seq<NetworkConfigWithOffset>, duration: int) -> bool {
    &&& strictly_increasing(timeline)
    &&& forall|i: int| 0 <= i < timeline.len() ==> (#[trigger] timeline[i]).offset_ms < duration
}

/// Whether `segments` cover the stretch from `from` to `to` without gap or overlap,
/// none of them empty.
pub open spec fn tiles(segments: Seq<Segment>, from: int, to: int) -> bool {
    &&& segments.len() > 0
    &&& segments[0].start_ms == from
    &&& segments[segments.len() - 1].end_ms == to
    &&& forall|k: int| 0 <= k < segments.len() ==> (#[trigger] segments[k]).start_ms < segments[k].end_ms
    &&& forall|k: int|
        0 <= k < segments.len() - 1 ==> (#[trigger] segments[k]).end_ms == segments[k + 1].start_ms
}

/// Appends to `out` the pieces of the stretch from `start_ms` to `end_ms`.
fn split_into(out: &mut Vec<Segment>, start_ms: u64, end_ms: u64, length_ms: u64)
    ensures
        final(out)@ == old(out)@ + split(start_ms as int, end_ms as int, length_ms as int),
{
    let ghost target = out@ + split(start_ms as int, end_ms as int, length_ms as int);
    let mut pos: u64 = start_ms;
    let mut done: bool = false;
    while !done && pos < end_ms
        invariant
            start_ms <= pos,
            !done ==> out@ + split(pos as int, end_ms as int, length_ms as int) == target,
            done ==> out@ == target,
        decreases
                (if done {
                    0
                } else {
                    end_ms - pos + 1
                }),
    {
        let ghost before = out@;
        if length_ms == 0 || end_ms - pos <= length_ms {
            out.push(Segment { start_ms: pos, end_ms });
            done = true;
        } else {
            let next: u64 = pos + length_ms;
            out.push(Segment { start_ms: pos, end_ms: next });
            assert(out@ + split(next as int, end_ms as int, length_ms as int) =~= before + split(
                pos as int,
                end_ms as int,
                length_ms as int,
            ));
            pos = next;
        }
    }
}

/// Lays out the segments that are scored for a call of `duration_ms`.
///
/// In `Full` mode that is the call as a whole. In `Chopped` mode the call is cut at
/// every offset of `timeline`, and each of the stretches between two cuts into pieces
/// of `segment_ms`, counted from the cut; a `segment_ms` of zero leaves the stretches
/// whole.
pub fn scoring_plan(
    mode: AudioAnalysisMode,
    timeline: &Vec<NetworkConfigWithOffset>,
    duration_ms: u64,
    segment_ms: u64,
) -> (r: Vec<Segment>)
    ensures
        r@ == scoring_segments(mode, timeline@, duration_ms as int, segment_ms as int),
{
    let mut out: Vec<Segment> = Vec::new();
    match mode {
        AudioAnalysisMode::Full => {
            out.push(Segment { start_ms: 0, end_ms: duration_ms });
        },
        AudioAnalysisMode::Chopped => {
            let n: usize = timeline.len();
            if n == 0 {
                split_into(&mut out, 0, duration_ms, segment_ms);
                proof {
                    let bounds = boundaries(timeline@);
                    reveal_with_fuel(chop_first, 2);
                    assert(chop_first(bounds, duration_ms as int, segment_ms as int, 0)
                        =~= Seq::empty());
                }
            } else {
                let mut k: usize = 0;
                while k < n
                    invariant
                        k <= n == timeline.len(),
                        n > 0,
                        out@ == chop_first(
                            boundaries(timeline@),
                            duration_ms as int,
                            segment_ms as int,
                            k as int,
                        ),
                    decreases n - k,
                {
                    let start: u64 = timeline[k].offset_ms;
                    let end: u64 = if k + 1 < n {
                        timeline[k + 1].offset_ms
                    } else {
                        duration_ms
                    };
                    split_into(&mut out, start, end, segment_ms);
                    k = k + 1;
                }
            }
        },
    }
    out
}

/// Cutting a stretch that is not empty covers it without gap or overlap, and no piece
/// is longer than asked for.
pub proof fn lemma_split_tiles(start: int, end: int, length: int)
    requires
        0 <= start < end <= u64::MAX,
    ensures
        tiles(split(start, end, length), start, end),
        length > 0 ==> forall|k: int|
            0 <= k < split(start, end, length).len() ==> (#[trigger] split(
                start,
                end,
                length,
            )[k]).end_ms - split(start, end, length)[k].start_ms <= length,
        length <= 0 ==> split(start, end, length) == seq![stretch(start, end)],
    decreases end - start,
{
    if length > 0 && end - start > length {
        lemma_split_tiles(start + length, end, length);
    }
}

/// Two coverings that meet make one covering.
pub proof fn lemma_tiles_join(a: Seq<Segment>, b: Seq<Segment>, from: int, mid: int, to: int)
    requires
        tiles(a, from, mid),
        tiles(b, mid, to),
    ensures
        tiles(a + b, from, to),
{
}

proof fn lemma_chop_first_tiles(
    timeline: Seq<NetworkConfigWithOffset>,
    duration: int,
    length: int,
    count: int,
)
    requires
        fits(timeline, duration),
        timeline.len() > 0,
        timeline[0].offset_ms == 0,
        duration <= u64::MAX,
        0 < count <= timeline.len(),
    ensures
        tiles(
            chop_first(boundaries(timeline), duration, length, count),
            0,
            interval_end(boundaries(timeline), duration, count - 1),
        ),
        length <= 0 ==> chop_first(boundaries(timeline), duration, length, count).len() == count,
        length <= 0 ==> forall|k: int|
            0 <= k < count ==> #[trigger] chop_first(
                boundaries(timeline),
                duration,
                length,
                count,
            )[k] == stretch(
                timeline[k].offset_ms as int,
                interval_end(boundaries(timeline), duration, k),
            ),
    decreases count,
{
    let bounds = boundaries(timeline);
    let start = bounds[count - 1];
    let end = interval_end(bounds, duration, count - 1);
    lemma_split_tiles(start, end, length);
    let head = chop_first(bounds, duration, length, count - 1);
    let tail = split(start, end, length);
    if count > 1 {
        lemma_chop_first_tiles(timeline, duration, length, count - 1);
        lemma_tiles_join(head, tail, 0, start, end);
    }
}

/// The segments of a chopped call cover it from its start to its end without gap or
/// overlap, whatever the length of the pieces.
pub proof fn lemma_chopped_tiles_call(
    timeline: Seq<NetworkConfigWithOffset>,
    duration: int,
    length: int,
)
    requires
        fits(timeline, duration),
        timeline.len() > 0 ==> timeline[0].offset_ms == 0,
        0 < duration <= u64::MAX,
    ensures
        tiles(chopped(timeline, duration, length), 0, duration),
{
    if timeline.len() == 0 {
        reveal_with_fuel(chop_first, 2);
        lemma_split_tiles(0, duration, length);
    } else {
        lemma_chop_first_tiles(timeline, duration, length, timeline.len() as int);
    }
}

/// Where the pieces are left whole, a chopped call has one segment for each point at
/// which its conditions change: the segment begins at that point and ends at the next
/// or with the call. A call scored in full has one segment, the call itself.
pub proof fn lemma_one_segment_per_boundary(
    timeline: Seq<NetworkConfigWithOffset>,
    duration: int,
)
    requires
        fits(timeline, duration),
        timeline.len() > 0 ==> timeline[0].offset_ms == 0,
        0 < duration <= u64::MAX,
    ensures
        scoring_segments(AudioAnalysisMode::Chopped, timeline, duration, 0).len() == boundaries(
            timeline,
        ).len(),
        timeline.len() > 0 ==> scoring_segments(
            AudioAnalysisMode::Chopped,
            timeline,
            duration,
            0,
        ).len() == timeline.len(),
        forall|k: int|
            0 <= k < boundaries(timeline).len() ==> #[trigger] scoring_segments(
                AudioAnalysisMode::Chopped,
                timeline,
                duration,
                0,
            )[k] == stretch(
                boundaries(timeline)[k],
                interval_end(boundaries(timeline), duration, k),
            ),
        forall|length: int|
            (#[trigger] scoring_segments(AudioAnalysisMode::Full, timeline, duration, length))
                == seq![stretch(0, duration)],
{
    if timeline.len() == 0 {
        reveal_with_fuel(chop_first, 2);
        lemma_split_tiles(0, duration, 0);
    } else {
        lemma_chop_first_tiles(timeline, duration, 0, timeline.len() as int);
    }
}

} // verus!
