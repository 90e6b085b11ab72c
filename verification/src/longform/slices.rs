//! Audio slices: the windows of a recording that are decoded one by one.

use vstd::math::*;
use vstd::prelude::*;

verus! {

/// Which planner produced a slice.
#[derive(Debug, Clone, Copy, PartialEq, Eq, Structural)]
pub enum AudioSliceKind {
    Full,
    Fixed,
    Energy,
    Vad,
}

/// One window of a recording: the samples fed to the executor, and the narrower
/// range of them that the slice is there for.
#[derive(Debug, Clone, Copy, PartialEq, Eq, Structural)]
pub struct AudioSlice {
    pub index: usize,
    pub kind: AudioSliceKind,
    pub start_sample: usize,
    pub end_sample: usize,
    pub content_start_sample: usize,
    pub content_end_sample: usize,
}

/// Half-open range of samples that a voice-activity detector calls speech.
#[derive(Debug, Clone, Copy, PartialEq, Eq, Structural)]
pub struct LongFormVadSlice {
    pub start_sample: usize,
    pub end_sample: usize,
}

pub(crate) fn smaller(a: usize, b: usize) -> (r: usize)
    ensures
        r == min(a as int, b as int),
{
    if a <= b {
        a
    } else {
        b
    }
}

pub(crate) fn larger(a: usize, b: usize) -> (r: usize)
    ensures
        r == max(a as int, b as int),
{
    if a >= b {
        a
    } else {
        b
    }
}

impl AudioSlice {
    /// Length of the fed window.
    pub open spec fn duration(self) -> int {
        max(0, self.end_sample as int - self.start_sample as int)
    }

    /// Length of the content range.
    pub open spec fn content_duration(self) -> int {
        max(0, self.content_end_sample as int - self.content_start_sample as int)
    }

    pub fn duration_samples(&self) -> (samples: usize)
        ensures
            samples == self.duration(),
    {
        self.end_sample.saturating_sub(self.start_sample)
    }

    pub fn content_duration_samples(&self) -> (samples: usize)
        ensures
            samples == self.content_duration(),
    {
        self.content_end_sample.saturating_sub(self.content_start_sample)
    }
}

/// An unpadded slice: the fed window is the content.
pub open spec fn plain_slice(
    index: int,
    kind: AudioSliceKind,
    start: int,
    end: int,
) -> AudioSlice {
    AudioSlice {
        index: index as usize,
        kind,
        start_sample: start as usize,
        end_sample: end as usize,
        content_start_sample: start as usize,
        content_end_sample: end as usize,
    }
}

pub(crate) fn unpadded_slice(
    index: usize,
    kind: AudioSliceKind,
    start_sample: usize,
    end_sample: usize,
) -> (slice: AudioSlice)
    ensures
        slice == plain_slice(index as int, kind, start_sample as int, end_sample as int),
{
    AudioSlice {
        index,
        kind,
        start_sample,
        end_sample,
        content_start_sample: start_sample,
        content_end_sample: end_sample,
    }
}

/// The slice that covers a whole recording.
pub fn full_slice(total_samples: usize) -> (slice: AudioSlice)
    ensures
        slice == plain_slice(0, AudioSliceKind::Full, 0, total_samples as int),
{
    unpadded_slice(0, AudioSliceKind::Full, 0, total_samples)
}

/// An unpadded voice-activity slice.
pub fn vad_slice(index: usize, start_sample: usize, end_sample: usize) -> (slice: AudioSlice)
    ensures
        slice == plain_slice(
            index as int,
            AudioSliceKind::Vad,
            start_sample as int,
            end_sample as int,
        ),
{
    unpadded_slice(index, AudioSliceKind::Vad, start_sample, end_sample)
}

/// End of a window that starts at `start` and would like to end at `soft_end`.
pub open spec fn window_end(start: int, soft_end: int, timeline_end: int, max_samples: int) -> int {
    min(soft_end, min(start + max_samples, timeline_end))
}

/// Emitted window end: never past the executor ceiling or the timeline.
pub fn executor_window_end(
    start: usize,
    soft_end: usize,
    timeline_end: usize,
    max_samples: usize,
) -> (end: usize)
    ensures
        end == window_end(
            start as int,
            soft_end as int,
            timeline_end as int,
            max_samples as int,
        ),
        end <= timeline_end,
        end <= start + max_samples,
{
    let hard_end: usize = smaller(start.saturating_add(max_samples), timeline_end);
    smaller(soft_end, hard_end)
}

/// Start of the window after `[start, end)`: `overlap` samples back from its end,
/// unless that would not move past `start`.
pub open spec fn next_start(start: int, end: int, overlap: int) -> int {
    if end - overlap <= start {
        end
    } else {
        end - overlap
    }
}

/// Steps to the next window; it always moves forward, and never past `end`.
pub fn advance_window_start(start: usize, end: usize, overlap_samples: usize) -> (next: usize)
    ensures
        next == next_start(start as int, end as int, overlap_samples as int),
        start < end ==> start < next <= end,
{
    let next: usize = end.saturating_sub(overlap_samples);
    if next <= start {
        end
    } else {
        next
    }
}

/// How far each side of a slice may be widened.
pub open spec fn side_padding(slice: AudioSlice, pad: int, ceiling: int) -> int {
    min(pad, max(0, ceiling - slice.content_duration()) / 2)
}

/// A slice with its fed window widened round its content.
pub open spec fn padded_slice(
    slice: AudioSlice,
    total_samples: int,
    pad: int,
    ceiling: int,
) -> AudioSlice {
    let side = side_padding(slice, pad, ceiling);
    AudioSlice {
        start_sample: max(0, slice.content_start_sample as int - side) as usize,
        end_sample: min(slice.content_end_sample + side, total_samples) as usize,
        ..slice
    }
}

/// Every slice of a plan, padded.
pub open spec fn padded_slices(
    slices: Seq<AudioSlice>,
    total_samples: int,
    pad: int,
    ceiling: int,
) -> Seq<AudioSlice> {
    Seq::new(slices.len(), |i: int| padded_slice(slices[i], total_samples, pad, ceiling))
}

/// Widens every fed window by `pad` samples on each side, or by less where the
/// widened window would cross the executor ceiling. Padding shrinks, content never.
pub fn apply_padding(
    slices: &mut Vec<AudioSlice>,
    total_samples: usize,
    pad: usize,
    max_chunk_samples: usize,
)
    ensures
        final(slices)@ == padded_slices(
            old(slices)@,
            total_samples as int,
            pad as int,
            max_chunk_samples as int,
        ),
{
    let mut at: usize = 0;
    while at < slices.len()
        invariant
            at <= slices.len(),
            slices.len() == old(slices)@.len(),
            forall|i: int|
                0 <= i < at ==> slices@[i] == padded_slice(
                    old(slices)@[i],
                    total_samples as int,
                    pad as int,
                    max_chunk_samples as int,
                ),
            forall|i: int| at <= i < slices.len() ==> slices@[i] == old(slices)@[i],
        decreases slices.len() - at,
    {
        let slice: AudioSlice = slices[at];
        let pad_budget: usize = max_chunk_samples.saturating_sub(slice.content_duration_samples());
        let side_pad: usize = smaller(pad, pad_budget / 2);
        slices.set(
            at,
            AudioSlice {
                start_sample: slice.content_start_sample.saturating_sub(side_pad),
                end_sample: smaller(slice.content_end_sample.saturating_add(side_pad), total_samples),
                ..slice
            },
        );
        at = at + 1;
    }
    assert(slices@ =~= padded_slices(
        old(slices)@,
        total_samples as int,
        pad as int,
        max_chunk_samples as int,
    ));
}

/// Whether every content range of a plan fits the executor ceiling.
pub open spec fn content_within(slices: Seq<AudioSlice>, ceiling: int) -> bool {
    forall|i: int| 0 <= i < slices.len() ==> (#[trigger] slices[i]).content_duration() <= ceiling
}

/// Whether every fed window of a plan fits the executor ceiling.
pub open spec fn windows_within(slices: Seq<AudioSlice>, ceiling: int) -> bool {
    forall|i: int| 0 <= i < slices.len() ==> (#[trigger] slices[i]).duration() <= ceiling
}

/// Whether every content range of a plan is a range of the recording.
pub open spec fn content_inside(slices: Seq<AudioSlice>, total_samples: int) -> bool {
    forall|i: int|
        0 <= i < slices.len() ==> (#[trigger] slices[i]).content_start_sample
            <= slices[i].content_end_sample <= total_samples
}

/// Padding keeps every fed window inside the executor ceiling, never cuts into the
/// content, and leaves the content ranges as they are.
pub proof fn law_padding_respects_the_ceiling(
    slices: Seq<AudioSlice>,
    total_samples: int,
    pad: int,
    ceiling: int,
)
    requires
        content_within(slices, ceiling),
        content_inside(slices, total_samples),
        0 <= pad,
        total_samples <= usize::MAX,
    ensures
        windows_within(padded_slices(slices, total_samples, pad, ceiling), ceiling),
        forall|i: int|
            0 <= i < slices.len() ==> {
                let after = #[trigger] padded_slices(slices, total_samples, pad, ceiling)[i];
                &&& after.start_sample <= after.content_start_sample
                &&& after.content_end_sample <= after.end_sample <= total_samples
                &&& after.content_start_sample == slices[i].content_start_sample
                &&& after.content_end_sample == slices[i].content_end_sample
            },
{
    let padded = padded_slices(slices, total_samples, pad, ceiling);
    assert forall|i: int| 0 <= i < slices.len() implies {
        let after = #[trigger] padded[i];
        &&& after.start_sample <= after.content_start_sample
        &&& after.content_end_sample <= after.end_sample <= total_samples
        &&& after.content_start_sample == slices[i].content_start_sample
        &&& after.content_end_sample == slices[i].content_end_sample
        &&& after.duration() <= ceiling
    } by {
        let slice = slices[i];
        assert(slice.content_duration() <= ceiling);
    }
}

/// Where the ceiling leaves room for it on both sides, a fed window reaches exactly `pad`
/// samples to the left and to the right of its content, as far as the recording goes. Where
/// it does not, both sides get half of the room that is left.
pub proof fn law_padding_fills_the_room(
    slices: Seq<AudioSlice>,
    total_samples: int,
    pad: int,
    ceiling: int,
    i: int,
)
    requires
        0 <= i < slices.len(),
        content_within(slices, ceiling),
        content_inside(slices, total_samples),
        0 <= pad,
        total_samples <= usize::MAX,
    ensures
        ({
            let before = slices[i];
            let after = padded_slices(slices, total_samples, pad, ceiling)[i];
            let room = ceiling - (before.content_end_sample - before.content_start_sample);
            let side = if 2 * pad <= room {
                pad
            } else {
                room / 2
            };
            &&& padded_slices(slices, total_samples, pad, ceiling).len() == slices.len()
            &&& after.index == before.index
            &&& after.kind == before.kind
            &&& after.content_start_sample == before.content_start_sample
            &&& after.content_end_sample == before.content_end_sample
            &&& after.start_sample == if side <= before.content_start_sample {
                before.content_start_sample - side
            } else {
                0
            }
            &&& after.end_sample == if before.content_end_sample + side <= total_samples {
                before.content_end_sample + side
            } else {
                total_samples
            }
        }),
{
    assert(slices[i].content_duration() <= ceiling);
    assert(slices[i].content_start_sample <= slices[i].content_end_sample);
}

/// The next window starts the overlap before the end of the one before it, as long as that
/// moves forward; no sample is left between the two, and none of the overlap is lost.
pub proof fn law_windows_overlap(start: int, end: int, overlap: int)
    requires
        start < end,
        0 <= overlap,
    ensures
        start < next_start(start, end, overlap) <= end,
        overlap < end - start ==> end - next_start(start, end, overlap) == overlap,
        overlap >= end - start ==> next_start(start, end, overlap) == end,
{
}

/// A slice that has not been padded is fed exactly its content, and goes by the place and the
/// planner that it was made for.
pub proof fn law_slices_begin_unpadded(index: usize, kind: AudioSliceKind, start: usize, end: usize)
    ensures
        ({
            let slice = plain_slice(index as int, kind, start as int, end as int);
            &&& slice.index == index
            &&& slice.kind == kind
            &&& slice.content_start_sample == start
            &&& slice.content_end_sample == end
            &&& slice.start_sample == slice.content_start_sample
            &&& slice.end_sample == slice.content_end_sample
        }),
{
}

/// A window ends where it was meant to, but no later than the ceiling allows and never past the
/// timeline.
pub proof fn law_windows_end_at_the_first_limit(
    start: int,
    soft_end: int,
    timeline_end: int,
    max_samples: int,
)
    ensures
        ({
            let end = window_end(start, soft_end, timeline_end, max_samples);
            &&& end <= soft_end && end <= start + max_samples && end <= timeline_end
            &&& end == soft_end || end == start + max_samples || end == timeline_end
        }),
{
}

/// Content that fills the ceiling by itself is not padded at all.
pub proof fn law_full_windows_are_not_padded(
    slice: AudioSlice,
    total_samples: int,
    pad: int,
    ceiling: int,
)
    requires
        0 <= pad,
        slice.content_end_sample - slice.content_start_sample >= ceiling,
        slice.content_end_sample <= total_samples <= usize::MAX,
    ensures
        padded_slice(slice, total_samples, pad, ceiling).start_sample
            == slice.content_start_sample,
        padded_slice(slice, total_samples, pad, ceiling).end_sample == slice.content_end_sample,
        padded_slice(slice, total_samples, pad, ceiling).content_start_sample
            == slice.content_start_sample,
        padded_slice(slice, total_samples, pad, ceiling).content_end_sample
            == slice.content_end_sample,
{
}

} // verus!
