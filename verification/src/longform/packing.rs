//! Packing the kept regions of a recording onto a shorter timeline.

use vstd::math::*;
use vstd::prelude::*;

use crate::longform::energy;
use crate::longform::energy::choose_forced_cut;
use crate::longform::errors::{check_planning_canceled, LongFormSliceError};
use crate::longform::options::LongFormOptions;
use crate::longform::slices;
use crate::longform::slices::{
    advance_window_start, executor_window_end, larger, smaller, LongFormVadSlice,
};
use crate::longform::spans;
use crate::longform::timeline;
use crate::longform::timeline::{original_of, TimelineAnchor, TimelineMap};

verus! {

/// What to copy to make a packed timeline: the kept spans in order, with a seam of
/// silence between two.
#[derive(Debug, Clone, PartialEq, Eq)]
pub struct PackedAudioMaterializationPlan {
    pub spans: Vec<LongFormVadSlice>,
    pub seam_samples: usize,
    pub processed_samples: usize,
}

/// A [`PackedAudioMaterializationPlan`] as a value.
#[verifier::ext_equal]
pub struct PackedPlan {
    pub spans: Seq<LongFormVadSlice>,
    pub seam_samples: usize,
    pub processed_samples: usize,
}

impl View for PackedAudioMaterializationPlan {
    type V = PackedPlan;

    open spec fn view(&self) -> PackedPlan {
        PackedPlan {
            spans: self.spans@,
            seam_samples: self.seam_samples,
            processed_samples: self.processed_samples,
        }
    }
}

// ---------------------------------------------------------------------------
// Laying out the kept spans
// ---------------------------------------------------------------------------

/// How far the packing has come.
#[verifier::ext_equal]
pub struct Packing {
    /// Samples laid out so far.
    pub cursor: int,
    /// Where the last span ended in the recording.
    pub previous_end: int,
    pub anchors: Seq<TimelineAnchor>,
    /// The spans in packed coordinates.
    pub processed: Seq<LongFormVadSlice>,
}

/// Whether a span can be packed: it holds a sample and lies inside the recording.
pub open spec fn is_packable(span: LongFormVadSlice, total: int) -> bool {
    span.nonempty() && span.end_sample <= total
}

pub open spec fn anchor(processed: int, original: int) -> TimelineAnchor {
    TimelineAnchor { processed_sample: processed as usize, original_sample: original as usize }
}

pub open spec fn range(start: int, end: int) -> LongFormVadSlice {
    LongFormVadSlice { start_sample: start as usize, end_sample: end as usize }
}

/// The packing after one more span, which is the `index`-th.
pub open spec fn packed_next(so_far: Packing, index: int, span: LongFormVadSlice, seam: int) -> Packing {
    let start = if index == 0 {
        so_far.cursor
    } else {
        so_far.cursor + seam
    };
    let opened = if index == 0 {
        so_far.anchors.push(anchor(0, span.start_sample as int))
    } else {
        so_far.anchors.push(anchor(so_far.cursor, so_far.previous_end)).push(
            anchor(start, span.start_sample as int),
        )
    };
    let end = start + span.length();
    Packing {
        cursor: end,
        previous_end: span.end_sample as int,
        anchors: opened.push(anchor(end, span.end_sample as int)),
        processed: so_far.processed.push(range(start, end)),
    }
}

/// The packing of the first `count` spans.
pub open spec fn packed_through(
    kept: Seq<LongFormVadSlice>,
    count: int,
    total: int,
    seam: int,
) -> Packing
    decreases count,
{
    if count <= 0 {
        Packing { cursor: 0, previous_end: 0, anchors: Seq::empty(), processed: Seq::empty() }
    } else {
        let before = packed_through(kept, count - 1, total, seam);
        if is_packable(kept[count - 1], total) {
            packed_next(before, count - 1, kept[count - 1], seam)
        } else {
            before
        }
    }
}

/// The packing of all spans.
pub open spec fn packed(kept: Seq<LongFormVadSlice>, total: int, seam: int) -> Packing {
    packed_through(kept, kept.len() as int, total, seam)
}

proof fn lemma_cursor_grows(
    kept: Seq<LongFormVadSlice>,
    count: int,
    to: int,
    total: int,
    seam: int,
)
    requires
        0 <= count <= to,
        0 <= seam,
    ensures
        0 <= packed_through(kept, count, total, seam).cursor <= packed_through(
            kept,
            to,
            total,
            seam,
        ).cursor,
    decreases to,
{
    if count < to {
        lemma_cursor_grows(kept, count, to - 1, total, seam);
    } else if to > 0 {
        lemma_cursor_grows(kept, count - 1, to - 1, total, seam);
    }
}

/// Whether a packed timeline of this length can be held: it is no longer than the signed
/// range of the machine word, which bounds every allocation.
pub open spec fn can_be_held(length: int) -> bool {
    length <= usize::MAX / 2
}

/// Length of the packed timeline of kept spans, if it can be held.
pub fn packed_length(kept: &Vec<LongFormVadSlice>, total_samples: usize, seam_samples: usize) -> (
length: Option<usize>)
    ensures
        match length {
            Some(samples) => samples == packed(
                kept@,
                total_samples as int,
                seam_samples as int,
            ).cursor && can_be_held(samples as int),
            None => !can_be_held(
                packed(kept@, total_samples as int, seam_samples as int).cursor,
            ),
        },
{
    let mut cursor: usize = 0;
    let mut at: usize = 0;
    while at < kept.len()
        invariant
            at <= kept.len(),
            cursor == packed_through(
                kept@,
                at as int,
                total_samples as int,
                seam_samples as int,
            ).cursor,
            can_be_held(cursor as int),
        decreases kept.len() - at,
    {
        let span: LongFormVadSlice = kept[at];
        proof {
            lemma_cursor_grows(
                kept@,
                at + 1,
                kept.len() as int,
                total_samples as int,
                seam_samples as int,
            );
        }
        if span.end_sample > span.start_sample && span.end_sample <= total_samples {
            let seam: usize = if at == 0 {
                0
            } else {
                seam_samples
            };
            let length: usize = span.end_sample - span.start_sample;
            let left: usize = usize::MAX / 2 - cursor;
            if seam > left || length > left - seam {
                return None;
            }
            cursor = cursor + seam + length;
        }
        at = at + 1;
    }
    Some(cursor)
}

/// A point of the packed timeline and the point of the recording that it stands for.
pub fn timeline_anchor_from_samples(
    processed_sample: usize,
    original_sample: usize,
) -> (point: TimelineAnchor)
    ensures
        point == anchor(processed_sample as int, original_sample as int),
{
    TimelineAnchor { processed_sample, original_sample }
}

/// Lays the kept spans out one after another, with a seam between two: what to copy,
/// how the new timeline maps back, and where each span lands. Nothing where no span can
/// be packed.
pub fn build_packed_audio_materialization_plan(
    kept: &Vec<LongFormVadSlice>,
    total_samples: usize,
    seam_samples: usize,
) -> (built: Option<(PackedAudioMaterializationPlan, TimelineMap, Vec<LongFormVadSlice>)>)
    requires
        packed(kept@, total_samples as int, seam_samples as int).cursor <= usize::MAX,
    ensures
        ({
            let packing = packed(kept@, total_samples as int, seam_samples as int);
            match built {
                None => packing.cursor == 0,
                Some(parts) => {
                    &&& packing.cursor > 0
                    &&& parts.0@ == (PackedPlan {
                        spans: kept@,
                        seam_samples,
                        processed_samples: packing.cursor as usize,
                    })
                    &&& parts.1@ == packing.anchors
                    &&& parts.2@ == packing.processed
                },
            }
        }),
{
    let mut processed_spans: Vec<LongFormVadSlice> = Vec::new();
    let mut anchors: Vec<TimelineAnchor> = Vec::new();
    let mut previous_original_end: usize = 0;
    let mut cursor: usize = 0;
    let mut at: usize = 0;
    while at < kept.len()
        invariant
            at <= kept.len(),
            packed(kept@, total_samples as int, seam_samples as int).cursor <= usize::MAX,
            ({
                let so_far = packed_through(
                    kept@,
                    at as int,
                    total_samples as int,
                    seam_samples as int,
                );
                &&& cursor == so_far.cursor
                &&& previous_original_end == so_far.previous_end
                &&& anchors@ == so_far.anchors
                &&& processed_spans@ == so_far.processed
            }),
        decreases kept.len() - at,
    {
        let span: LongFormVadSlice = kept[at];
        proof {
            lemma_cursor_grows(
                kept@,
                at + 1,
                kept.len() as int,
                total_samples as int,
                seam_samples as int,
            );
        }
        if span.end_sample > span.start_sample && span.end_sample <= total_samples {
            if at == 0 {
                anchors.push(timeline_anchor_from_samples(0, span.start_sample));
            } else {
                anchors.push(timeline_anchor_from_samples(cursor, previous_original_end));
                cursor = cursor + seam_samples;
                anchors.push(timeline_anchor_from_samples(cursor, span.start_sample));
            }
            let processed_start: usize = cursor;
            cursor = cursor + (span.end_sample - span.start_sample);
            processed_spans.push(
                LongFormVadSlice { start_sample: processed_start, end_sample: cursor },
            );
            anchors.push(timeline_anchor_from_samples(cursor, span.end_sample));
            previous_original_end = span.end_sample;
        }
        at = at + 1;
    }
    if cursor == 0 {
        return None;
    }
    let spans: Vec<LongFormVadSlice> = copied(kept);
    Some(
        (
            PackedAudioMaterializationPlan { spans, seam_samples, processed_samples: cursor },
            TimelineMap::from_anchors(anchors),
            processed_spans,
        ),
    )
}

/// A copy of the spans.
pub(crate) fn copied(spans: &Vec<LongFormVadSlice>) -> (copy: Vec<LongFormVadSlice>)
    ensures
        copy@ == spans@,
{
    let mut copy: Vec<LongFormVadSlice> = Vec::new();
    let mut at: usize = 0;
    while at < spans.len()
        invariant
            at <= spans.len(),
            copy@ == spans@.take(at as int),
        decreases spans.len() - at,
    {
        copy.push(spans[at]);
        at = at + 1;
        assert(copy@ =~= spans@.take(at as int));
    }
    assert(copy@ =~= spans@);
    copy
}

/// Packed, spans that lie in the recording take their own lengths and one seam between
/// two.
pub proof fn law_packed_length(kept: Seq<LongFormVadSlice>, count: int, total: int, seam: int)
    requires
        0 <= count <= kept.len(),
        spans::all_inside(kept, total),
        0 <= seam,
    ensures
        ({
            let packing = packed_through(kept, count, total, seam);
            &&& packing.cursor == spans::total_length(kept, count) + seams(count, seam)
            &&& packing.processed.len() == count
            &&& count > 0 ==> packing.cursor > 0
        }),
    decreases count,
{
    if count > 0 {
        law_packed_length(kept, count - 1, total, seam);
        lemma_cursor_grows(kept, count - 1, count - 1, total, seam);
        assert(is_packable(kept[count - 1], total));
        if count > 1 {
            assert(seam * (count - 1) == seam * (count - 2) + seam) by (nonlinear_arith);
        } else {
            assert(seam * 0 == 0);
        }
    }
}

/// Samples that the seams between `count` spans take.
pub open spec fn seams(count: int, seam: int) -> int {
    if count <= 1 {
        0
    } else {
        seam * (count - 1)
    }
}

/// Packed spans hold a sample each and end at or before the cursor.
pub proof fn lemma_processed_spans_in_order(
    kept: Seq<LongFormVadSlice>,
    count: int,
    total: int,
    seam: int,
)
    requires
        0 <= count <= kept.len(),
        0 <= seam,
        packed_through(kept, count, total, seam).cursor <= usize::MAX,
    ensures
        ({
            let packing = packed_through(kept, count, total, seam);
            forall|i: int|
                0 <= i < packing.processed.len() ==> (#[trigger] packing.processed[i]).nonempty()
                    && packing.processed[i].end_sample <= packing.cursor
        }),
    decreases count,
{
    if count > 0 {
        lemma_cursor_grows(kept, count - 1, count, total, seam);
        lemma_processed_spans_in_order(kept, count - 1, total, seam);
    }
}

/// Packed spans of a recording begin at zero and end at the cursor.
pub proof fn lemma_processed_ends(
    kept: Seq<LongFormVadSlice>,
    count: int,
    total: int,
    seam: int,
)
    requires
        0 <= count <= kept.len(),
        spans::all_inside(kept, total),
        0 <= seam,
        packed_through(kept, count, total, seam).cursor <= usize::MAX,
    ensures
        ({
            let packing = packed_through(kept, count, total, seam);
            &&& packing.processed.len() == count
            &&& count > 0 ==> packing.processed[0].start_sample == 0
                && packing.processed.last().end_sample == packing.cursor
        }),
    decreases count,
{
    if count > 0 {
        lemma_cursor_grows(kept, count - 1, count, total, seam);
        lemma_processed_ends(kept, count - 1, total, seam);
        assert(is_packable(kept[count - 1], total));
    }
}

/// The packed timeline maps back to the recording. It starts with the first kept span, each
/// span takes its own length, and a seam lies between two. Behind one another stand, for
/// every span, the points where it starts and ends on both timelines, so that a time inside
/// it lies as far behind its start on the one as on the other; a seam begins at the end of
/// the span before it.
pub proof fn law_packed_spans_map_back(
    kept: Seq<LongFormVadSlice>,
    count: int,
    total: int,
    seam: int,
    i: int,
)
    requires
        0 <= i < count <= kept.len(),
        spans::all_inside(kept, total),
        0 <= seam,
        packed_through(kept, count, total, seam).cursor <= usize::MAX,
    ensures
        ({
            let packing = packed_through(kept, count, total, seam);
            let placed = packing.processed;
            let anchors = packing.anchors;
            &&& placed.len() == count
            &&& anchors.len() == 3 * count - 1
            &&& packing.cursor == placed[count - 1].end_sample
            &&& packing.previous_end == kept[count - 1].end_sample
            &&& placed[i].end_sample - placed[i].start_sample == kept[i].end_sample
                - kept[i].start_sample
            &&& i == 0 ==> placed[i].start_sample == 0
            &&& i > 0 ==> placed[i].start_sample == placed[i - 1].end_sample + seam
            &&& anchors[3 * i].processed_sample == placed[i].start_sample
            &&& anchors[3 * i].original_sample == kept[i].start_sample
            &&& anchors[3 * i + 1].processed_sample == placed[i].end_sample
            &&& anchors[3 * i + 1].original_sample == kept[i].end_sample
            &&& i > 0 ==> anchors[3 * i - 1].processed_sample == placed[i - 1].end_sample
                && anchors[3 * i - 1].original_sample == kept[i - 1].end_sample
        }),
    decreases count,
{
    lemma_cursor_grows(kept, count - 1, count, total, seam);
    assert(is_packable(kept[count - 1], total));
    if count > 1 {
        law_packed_spans_map_back(kept, count - 1, total, seam, count - 2);
        if i < count - 1 {
            law_packed_spans_map_back(kept, count - 1, total, seam, i);
        }
    }
}

/// A sample of a kept span lies in the packed audio as far behind the start of its span as
/// it does in the recording.
pub proof fn law_packed_samples_are_copies<T>(
    samples: Seq<T>,
    kept: Seq<LongFormVadSlice>,
    count: int,
    seam: int,
    silence: T,
    i: int,
    offset: int,
)
    requires
        0 <= i < count <= kept.len(),
        spans::all_inside(kept, samples.len() as int),
        0 <= seam,
        packed_through(kept, count, samples.len() as int, seam).cursor <= usize::MAX,
        0 <= offset < kept[i].end_sample - kept[i].start_sample,
    ensures
        ({
            let placed = packed_through(kept, count, samples.len() as int, seam).processed;
            packed_audio(samples, kept, count, seam, silence)[placed[i].start_sample + offset]
                == samples[kept[i].start_sample + offset]
        }),
{
    law_packed_audio_holds_every_span(samples, kept, count, seam, silence);
    law_packed_spans_map_back(kept, count, samples.len() as int, seam, i);
    let audio = packed_audio(samples, kept, count, seam, silence);
    let placed = packed_through(kept, count, samples.len() as int, seam).processed;
    let there = audio.subrange(placed[i].start_sample as int, placed[i].end_sample as int);
    let here = samples.subrange(kept[i].start_sample as int, kept[i].end_sample as int);
    assert(there == here);
    assert(there[offset] == here[offset]);
}

/// A span that holds no sample or reaches past the recording is left out of the packing.
pub proof fn law_spans_outside_are_not_packed(
    kept: Seq<LongFormVadSlice>,
    count: int,
    total: int,
    seam: int,
)
    requires
        0 < count <= kept.len(),
        kept[count - 1].end_sample <= kept[count - 1].start_sample || kept[count - 1].end_sample
            > total,
    ensures
        packed_through(kept, count, total, seam) == packed_through(kept, count - 1, total, seam),
{
}

// ---------------------------------------------------------------------------
// Splitting long processed spans at quiet frames
// ---------------------------------------------------------------------------

/// End of the sub-span at `start` of a processed span that begins at `original_start`
/// of the recording. A single processed span maps onto one contiguous stretch of the
/// recording, so the split is found there and moved back.
pub open spec fn subspan_end(
    levels: spec_fn(int, int) -> u32,
    sample_count: int,
    start: int,
    span: LongFormVadSlice,
    original_start: int,
    options: LongFormOptions,
    ceiling: int,
) -> int {
    let chunk = max(options.chunk_samples as int, 1);
    let hard_end = min(start + ceiling, span.end_sample as int);
    let desired = min(start + chunk, span.end_sample as int);
    let floor = min(start + options.min_chunk_samples, hard_end);
    let shift = original_start - span.start_sample;
    if desired >= span.end_sample {
        slices::window_end(start, desired, span.end_sample as int, ceiling)
    } else {
        let cut = energy::forced_cut(
            levels,
            sample_count,
            desired + shift,
            hard_end + shift,
            floor + shift,
            options.search_samples as int,
            options.silence_level,
        );
        min(max(max(cut.0 - shift, span.start_sample as int), start + 1), hard_end)
    }
}

/// The sub-spans of one processed span from `start` on, behind those in `out`.
pub open spec fn subspans(
    out: Seq<LongFormVadSlice>,
    levels: spec_fn(int, int) -> u32,
    sample_count: int,
    start: int,
    span: LongFormVadSlice,
    original_start: int,
    options: LongFormOptions,
    ceiling: int,
) -> Seq<LongFormVadSlice>
    decreases span.end_sample - start,
{
    let end = subspan_end(levels, sample_count, start, span, original_start, options, ceiling);
    if start >= span.end_sample || end <= start {
        out
    } else {
        subspans(
            out.push(range(start, end)),
            levels,
            sample_count,
            end,
            span,
            original_start,
            options,
            ceiling,
        )
    }
}

/// The first `count` processed spans, those longer than a chunk split.
pub open spec fn subdivided(
    processed: Seq<LongFormVadSlice>,
    count: int,
    levels: spec_fn(int, int) -> u32,
    sample_count: int,
    originals: spec_fn(int) -> int,
    options: LongFormOptions,
    ceiling: int,
) -> Seq<LongFormVadSlice>
    decreases count,
{
    if count <= 0 {
        Seq::empty()
    } else {
        let out = subdivided(
            processed,
            count - 1,
            levels,
            sample_count,
            originals,
            options,
            ceiling,
        );
        let span = processed[count - 1];
        if span.length() <= min(max(options.chunk_samples as int, 1), ceiling) {
            out.push(span)
        } else {
            subspans(
                out,
                levels,
                sample_count,
                span.start_sample as int,
                span,
                originals(span.start_sample as int),
                options,
                ceiling,
            )
        }
    }
}

/// Where a mapper puts each sample of one timeline.
pub open spec fn along(
    originals: spec_fn(Seq<TimelineAnchor>, int) -> int,
    anchors: Seq<TimelineAnchor>,
) -> spec_fn(int) -> int {
    |processed: int| originals(anchors, processed)
}

proof fn lemma_subspan_end(
    levels: spec_fn(int, int) -> u32,
    sample_count: int,
    start: int,
    span: LongFormVadSlice,
    original_start: int,
    options: LongFormOptions,
    ceiling: int,
)
    requires
        span.start_sample <= start < span.end_sample,
        ceiling >= 1,
    ensures
        ({
            let end = subspan_end(
                levels,
                sample_count,
                start,
                span,
                original_start,
                options,
                ceiling,
            );
            start < end <= span.end_sample && end - start <= ceiling
        }),
{
}

/// End of the sub-span at `start`.
fn split_end<L: Fn(usize, usize) -> u32>(
    meter: &L,
    sample_count: usize,
    start: usize,
    span: LongFormVadSlice,
    original_start: usize,
    options: &LongFormOptions,
    max_chunk_samples: usize,
) -> (end: usize)
    requires
        energy::meters(*meter, sample_count as int),
        span.start_sample <= start < span.end_sample <= usize::MAX / 2,
        original_start <= usize::MAX / 2,
        max_chunk_samples >= 1,
    ensures
        end == subspan_end(
            energy::levels_of(*meter),
            sample_count as int,
            start as int,
            span,
            original_start as int,
            *options,
            max_chunk_samples as int,
        ),
        start < end <= span.end_sample,
{
    let chunk_samples: usize = larger(options.chunk_samples, 1);
    let hard_end: usize = smaller(start.saturating_add(max_chunk_samples), span.end_sample);
    let desired: usize = smaller(start.saturating_add(chunk_samples), span.end_sample);
    if desired >= span.end_sample {
        return executor_window_end(start, desired, span.end_sample, max_chunk_samples);
    }
    let floor: usize = smaller(start.saturating_add(options.min_chunk_samples), hard_end);
    let original_desired: usize = original_start + (desired - span.start_sample);
    let original_hard_end: usize = original_start + (hard_end - span.start_sample);
    let original_floor: usize = original_start + (floor - span.start_sample);
    let cut: (usize, bool) = choose_forced_cut(
        meter,
        sample_count,
        original_desired,
        original_hard_end,
        original_floor,
        options.search_samples,
        options.silence_level,
    );
    proof {
        let shift = original_start - span.start_sample;
        assert(original_desired == desired + shift);
        assert(original_hard_end == hard_end + shift);
        assert(original_floor == floor + shift);
        energy::law_forced_cut_is_legal(
            energy::levels_of(*meter),
            sample_count as int,
            original_desired as int,
            original_hard_end as int,
            original_floor as int,
            options.search_samples as int,
            options.silence_level,
        );
    }
    let moved_back: usize = span.start_sample + cut.0.saturating_sub(original_start);
    smaller(larger(moved_back, start + 1), hard_end)
}

/// Splits each processed span longer than one chunk into chunk-sized sub-spans at
/// silence-aware boundaries. The split points are found in the recording and mapped
/// back. Sub-spans are contiguous.
pub fn subdivide_processed_spans_silence_aware<
    L: Fn(usize, usize) -> u32,
    O: Fn(&TimelineMap, usize) -> usize,
>(
    processed: &Vec<LongFormVadSlice>,
    sample_rate_hz: u32,
    options: &LongFormOptions,
    meter: &L,
    sample_count: usize,
    mapper: &O,
    timeline: &TimelineMap,
) -> (out: Vec<LongFormVadSlice>)
    requires
        energy::meters(*meter, sample_count as int),
        timeline::maps(*mapper),
        options.has_ceiling(sample_rate_hz),
        forall|i: int|
            0 <= i < processed.len() ==> (#[trigger] processed@[i]).end_sample <= usize::MAX / 2,
    ensures
        out@ == subdivided(
            processed@,
            processed.len() as int,
            energy::levels_of(*meter),
            sample_count as int,
            along(timeline::originals_of(*mapper), timeline@),
            *options,
            options.ceiling(sample_rate_hz),
        ),
{
    let chunk_samples: usize = larger(options.chunk_samples, 1);
    let max_chunk_samples: usize = options.max_chunk_samples(sample_rate_hz);
    let ghost levels = energy::levels_of(*meter);
    let ghost originals = along(timeline::originals_of(*mapper), timeline@);
    let ghost ceiling = max_chunk_samples as int;
    let mut out: Vec<LongFormVadSlice> = Vec::new();
    let mut at: usize = 0;
    while at < processed.len()
        invariant
            at <= processed.len(),
            energy::meters(*meter, sample_count as int),
            timeline::maps(*mapper),
            ceiling == max_chunk_samples >= 1,
            chunk_samples == max(options.chunk_samples as int, 1),
            levels == energy::levels_of(*meter),
            originals == along(timeline::originals_of(*mapper), timeline@),
            forall|i: int|
                0 <= i < processed.len() ==> (#[trigger] processed@[i]).end_sample <= usize::MAX
                    / 2,
            out@ == subdivided(
                processed@,
                at as int,
                levels,
                sample_count as int,
                originals,
                *options,
                ceiling,
            ),
        decreases processed.len() - at,
    {
        let span: LongFormVadSlice = processed[at];
        let ghost split = subdivided(
            processed@,
            at + 1,
            levels,
            sample_count as int,
            originals,
            *options,
            ceiling,
        );
        let span_len: usize = span.end_sample.saturating_sub(span.start_sample);
        if span_len <= smaller(chunk_samples, max_chunk_samples) {
            out.push(span);
        } else {
            let original_start: usize = original_of(mapper, timeline, span.start_sample);
            let mut start: usize = span.start_sample;
            while start < span.end_sample
                invariant
                    energy::meters(*meter, sample_count as int),
                    span.start_sample <= start <= span.end_sample <= usize::MAX / 2,
                    original_start <= usize::MAX / 2,
                    ceiling == max_chunk_samples >= 1,
                    levels == energy::levels_of(*meter),
                    split == subspans(
                        out@,
                        levels,
                        sample_count as int,
                        start as int,
                        span,
                        original_start as int,
                        *options,
                        ceiling,
                    ),
                decreases span.end_sample - start,
            {
                let end: usize = split_end(
                    meter,
                    sample_count,
                    start,
                    span,
                    original_start,
                    options,
                    max_chunk_samples,
                );
                out.push(LongFormVadSlice { start_sample: start, end_sample: end });
                start = end;
            }
        }
        at = at + 1;
    }
    out
}

/// Whether the sub-spans from the `first`-th on tile `[from, to)`: they touch, move
/// forward, and none crosses the ceiling.
pub open spec fn tiles(
    out: Seq<LongFormVadSlice>,
    first: int,
    from: int,
    to: int,
    ceiling: int,
) -> bool {
    &&& 0 <= first < out.len()
    &&& out[first].start_sample == from
    &&& out.last().end_sample == to
    &&& forall|i: int, j: int|
        #![trigger out[i], out[j]]
        first <= i && i + 1 == j && j < out.len() ==> out[i].end_sample == out[j].start_sample
    &&& forall|i: int|
        first <= i < out.len() ==> (#[trigger] out[i]).nonempty() && out[i].length() <= ceiling
}

/// The sub-spans of one processed span tile it.
pub proof fn law_subspans_tile_the_span(
    out: Seq<LongFormVadSlice>,
    levels: spec_fn(int, int) -> u32,
    sample_count: int,
    start: int,
    span: LongFormVadSlice,
    original_start: int,
    options: LongFormOptions,
    ceiling: int,
)
    requires
        span.start_sample <= start < span.end_sample,
        ceiling >= 1,
    ensures
        ({
            let after = subspans(
                out,
                levels,
                sample_count,
                start,
                span,
                original_start,
                options,
                ceiling,
            );
            &&& tiles(after, out.len() as int, start, span.end_sample as int, ceiling)
            &&& forall|i: int| 0 <= i < out.len() ==> #[trigger] after[i] == out[i]
        }),
    decreases span.end_sample - start,
{
    lemma_subspan_end(levels, sample_count, start, span, original_start, options, ceiling);
    let end = subspan_end(levels, sample_count, start, span, original_start, options, ceiling);
    let pushed = out.push(range(start, end));
    let after = subspans(
        out,
        levels,
        sample_count,
        start,
        span,
        original_start,
        options,
        ceiling,
    );
    if end < span.end_sample {
        law_subspans_tile_the_span(
            pushed,
            levels,
            sample_count,
            end,
            span,
            original_start,
            options,
            ceiling,
        );
        assert(after[out.len() as int] == pushed[out.len() as int]);
        assert forall|i: int| 0 <= i < out.len() implies #[trigger] after[i] == out[i] by {
            assert(after[i] == pushed[i]);
        }
    } else {
        assert(subspans(
            pushed,
            levels,
            sample_count,
            end,
            span,
            original_start,
            options,
            ceiling,
        ) == pushed);
    }
}

/// Subdividing keeps the ends of the packed timeline, and no sub-span is empty or
/// crosses the ceiling.
pub proof fn law_subdivision_keeps_the_ends(
    processed: Seq<LongFormVadSlice>,
    count: int,
    levels: spec_fn(int, int) -> u32,
    sample_count: int,
    originals: spec_fn(int) -> int,
    options: LongFormOptions,
    ceiling: int,
)
    requires
        0 < count <= processed.len(),
        forall|i: int| 0 <= i < processed.len() ==> (#[trigger] processed[i]).nonempty(),
        ceiling >= 1,
    ensures
        ({
            let pieces = subdivided(
                processed,
                count,
                levels,
                sample_count,
                originals,
                options,
                ceiling,
            );
            &&& pieces.len() > 0
            &&& pieces[0].start_sample == processed[0].start_sample
            &&& pieces.last().end_sample == processed[count - 1].end_sample
            &&& forall|i: int|
                0 <= i < pieces.len() ==> (#[trigger] pieces[i]).nonempty() && pieces[i].length()
                    <= ceiling
        }),
    decreases count,
{
    let out = subdivided(
        processed,
        count - 1,
        levels,
        sample_count,
        originals,
        options,
        ceiling,
    );
    let span = processed[count - 1];
    if count > 1 {
        law_subdivision_keeps_the_ends(
            processed,
            count - 1,
            levels,
            sample_count,
            originals,
            options,
            ceiling,
        );
    } else {
        assert(out =~= Seq::empty());
    }
    assert(span.nonempty());
    if span.length() > min(max(options.chunk_samples as int, 1), ceiling) {
        law_subspans_tile_the_span(
            out,
            levels,
            sample_count,
            span.start_sample as int,
            span,
            originals(span.start_sample as int),
            options,
            ceiling,
        );
    }
}

/// Every sub-span of a processed span ends with the span, or at the ceiling, where a chunk
/// reaches its end. Else it ends where the recording is cut that stands behind it, searched
/// round a chunk behind its own start, no nearer to it than the least chunk, no further than
/// ceiling and span; and it always holds a sample.
pub proof fn law_subspans_end_at_pauses(
    out: Seq<LongFormVadSlice>,
    levels: spec_fn(int, int) -> u32,
    sample_count: int,
    start: int,
    span: LongFormVadSlice,
    original_start: int,
    options: LongFormOptions,
    ceiling: int,
)
    requires
        span.start_sample <= start < span.end_sample,
        ceiling >= 1,
    ensures
        ({
            let after = subspans(
                out,
                levels,
                sample_count,
                start,
                span,
                original_start,
                options,
                ceiling,
            );
            &&& out.len() < after.len()
            &&& forall|i: int| 0 <= i < out.len() ==> #[trigger] after[i] == out[i]
            &&& forall|i: int|
                out.len() <= i < after.len() ==> {
                    let from = (#[trigger] after[i]).start_sample as int;
                    let desired = from + max(options.chunk_samples as int, 1);
                    let most = min(from + ceiling, span.end_sample as int);
                    let shift = original_start - span.start_sample;
                    let cut = energy::forced_cut(
                        levels,
                        sample_count,
                        desired + shift,
                        most + shift,
                        min(from + options.min_chunk_samples, most) + shift,
                        options.search_samples as int,
                        options.silence_level,
                    ).0 - shift;
                    after[i].end_sample == if desired >= span.end_sample {
                        most
                    } else if cut > from {
                        cut
                    } else {
                        from + 1
                    }
                }
        }),
    decreases span.end_sample - start,
{
    lemma_subspan_end(levels, sample_count, start, span, original_start, options, ceiling);
    let end = subspan_end(levels, sample_count, start, span, original_start, options, ceiling);
    let pushed = out.push(range(start, end));
    let after = subspans(
        out,
        levels,
        sample_count,
        start,
        span,
        original_start,
        options,
        ceiling,
    );
    let most = min(start + ceiling, span.end_sample as int);
    let shift = original_start - span.start_sample;
    energy::law_forced_cut_is_legal(
        levels,
        sample_count,
        start + max(options.chunk_samples as int, 1) + shift,
        most + shift,
        min(start + options.min_chunk_samples, most) + shift,
        options.search_samples as int,
        options.silence_level,
    );
    if end < span.end_sample {
        law_subspans_end_at_pauses(
            pushed,
            levels,
            sample_count,
            end,
            span,
            original_start,
            options,
            ceiling,
        );
        assert(after[out.len() as int] == pushed[out.len() as int]);
        assert forall|i: int| 0 <= i < out.len() implies #[trigger] after[i] == out[i] by {
            assert(after[i] == pushed[i]);
        }
    } else {
        assert(subspans(
            pushed,
            levels,
            sample_count,
            end,
            span,
            original_start,
            options,
            ceiling,
        ) == pushed);
    }
}

/// A processed span that fits a chunk and the ceiling is not split.
pub proof fn law_short_spans_stay_whole(
    processed: Seq<LongFormVadSlice>,
    count: int,
    levels: spec_fn(int, int) -> u32,
    sample_count: int,
    originals: spec_fn(int) -> int,
    options: LongFormOptions,
    ceiling: int,
)
    requires
        0 < count <= processed.len(),
        processed[count - 1].end_sample - processed[count - 1].start_sample <= max(
            options.chunk_samples as int,
            1,
        ),
        processed[count - 1].end_sample - processed[count - 1].start_sample <= ceiling,
        0 <= ceiling,
    ensures
        subdivided(processed, count, levels, sample_count, originals, options, ceiling)
            == subdivided(
            processed,
            count - 1,
            levels,
            sample_count,
            originals,
            options,
            ceiling,
        ).push(processed[count - 1]),
{
}

/// A processed span that overruns a chunk or the ceiling is split from its start on, at the
/// stretch of the recording that begins where its start maps to.
pub proof fn law_long_spans_are_split(
    processed: Seq<LongFormVadSlice>,
    count: int,
    levels: spec_fn(int, int) -> u32,
    sample_count: int,
    originals: spec_fn(int) -> int,
    options: LongFormOptions,
    ceiling: int,
)
    requires
        0 < count <= processed.len(),
        processed[count - 1].end_sample - processed[count - 1].start_sample > max(
            options.chunk_samples as int,
            1,
        ) || processed[count - 1].end_sample - processed[count - 1].start_sample > ceiling,
        1 <= ceiling,
    ensures
        subdivided(processed, count, levels, sample_count, originals, options, ceiling)
            == subspans(
            subdivided(
                processed,
                count - 1,
                levels,
                sample_count,
                originals,
                options,
                ceiling,
            ),
            levels,
            sample_count,
            processed[count - 1].start_sample as int,
            processed[count - 1],
            originals(processed[count - 1].start_sample as int),
            options,
            ceiling,
        ),
{
}

// ---------------------------------------------------------------------------
// Packing sub-spans into windows
// ---------------------------------------------------------------------------

/// How long a packed window should, may and must be.
#[derive(Debug, Clone, Copy, PartialEq, Eq, Structural)]
pub struct WindowLimits {
    pub target_chunk_samples: usize,
    pub max_chunk_samples: usize,
    pub min_chunk_samples: usize,
}

/// Where a window at `start` ends that has taken in sub-spans up to `current_end` and
/// now looks at the `at`-th: behind the last sub-span that fits the target, or at the
/// ceiling where none leaves the window long enough.
pub open spec fn window_end_from(
    pieces: Seq<LongFormVadSlice>,
    at: int,
    current_end: int,
    start: int,
    limit: int,
    limits: WindowLimits,
) -> int
    decreases pieces.len() - at,
{
    let hard_end = min(start + limits.max_chunk_samples, limit);
    let desired = min(start + limits.target_chunk_samples, hard_end);
    let long_enough = max(0, current_end - start) >= limits.min_chunk_samples;
    if at >= pieces.len() {
        if current_end > start {
            min(current_end, hard_end)
        } else {
            hard_end
        }
    } else if pieces[at].end_sample <= start {
        window_end_from(pieces, at + 1, current_end, start, limit, limits)
    } else {
        let reached = min(pieces[at].end_sample as int, limit);
        if reached > hard_end {
            if current_end > start && long_enough {
                min(current_end, hard_end)
            } else {
                hard_end
            }
        } else if reached > desired && long_enough {
            current_end
        } else if reached >= hard_end {
            hard_end
        } else {
            window_end_from(pieces, at + 1, reached, start, limit, limits)
        }
    }
}

/// Latest legal end of a packed window at `start`. Soft cuts prefer sub-span boundaries
/// at the target; the ceiling is never crossed.
pub fn packed_window_end(
    start: usize,
    limit: usize,
    limits: WindowLimits,
    pieces: &Vec<LongFormVadSlice>,
) -> (end: usize)
    ensures
        end == window_end_from(pieces@, 0, start as int, start as int, limit as int, limits),
{
    let hard_end: usize = smaller(start.saturating_add(limits.max_chunk_samples), limit);
    let desired: usize = smaller(start.saturating_add(limits.target_chunk_samples), hard_end);
    let mut current_end: usize = start;
    let mut at: usize = 0;
    while at < pieces.len()
        invariant
            at <= pieces.len(),
            hard_end == min(start + limits.max_chunk_samples, limit as int),
            desired == min(start + limits.target_chunk_samples, hard_end as int),
            window_end_from(pieces@, 0, start as int, start as int, limit as int, limits)
                == window_end_from(
                pieces@,
                at as int,
                current_end as int,
                start as int,
                limit as int,
                limits,
            ),
        decreases pieces.len() - at,
    {
        let piece: LongFormVadSlice = pieces[at];
        if piece.end_sample > start {
            let reached: usize = smaller(piece.end_sample, limit);
            let current_len: usize = current_end.saturating_sub(start);
            if reached > hard_end {
                if current_end > start && current_len >= limits.min_chunk_samples {
                    return smaller(current_end, hard_end);
                }
                return hard_end;
            }
            if reached > desired && current_len >= limits.min_chunk_samples {
                return current_end;
            }
            current_end = reached;
            if current_end >= hard_end {
                return hard_end;
            }
        }
        at = at + 1;
    }
    if current_end > start {
        smaller(current_end, hard_end)
    } else {
        hard_end
    }
}

proof fn lemma_window_end(
    pieces: Seq<LongFormVadSlice>,
    at: int,
    current_end: int,
    start: int,
    limit: int,
    limits: WindowLimits,
)
    requires
        0 <= at,
        start < limit,
        limits.max_chunk_samples >= 1,
        limits.min_chunk_samples >= 1,
        start <= current_end <= min(start + limits.max_chunk_samples, limit),
    ensures
        start < window_end_from(pieces, at, current_end, start, limit, limits) <= min(
            start + limits.max_chunk_samples,
            limit,
        ),
    decreases pieces.len() - at,
{
    if at < pieces.len() {
        if pieces[at].end_sample <= start {
            lemma_window_end(pieces, at + 1, current_end, start, limit, limits);
        } else {
            let hard_end = min(start + limits.max_chunk_samples, limit);
            let reached = min(pieces[at].end_sample as int, limit);
            if reached < hard_end {
                lemma_window_end(pieces, at + 1, reached, start, limit, limits);
            }
        }
    }
}

/// End of the packed window at `start`, a tail too short for a window of its own taken
/// in where the ceiling allows.
pub open spec fn packed_end(
    pieces: Seq<LongFormVadSlice>,
    start: int,
    limit: int,
    limits: WindowLimits,
) -> int {
    let end = window_end_from(pieces, 0, start, start, limit, limits);
    if 0 < limit - end < limits.min_chunk_samples && limit - start <= limits.max_chunk_samples {
        limit
    } else {
        end
    }
}

/// The packed windows from `start` on, behind those already built.
pub open spec fn packed_windows(
    built: Seq<LongFormVadSlice>,
    pieces: Seq<LongFormVadSlice>,
    start: int,
    limit: int,
    limits: WindowLimits,
    overlap: nat,
) -> Seq<LongFormVadSlice>
    decreases limit - start,
{
    let end = packed_end(pieces, start, limit, limits);
    if start >= limit || end <= start {
        built
    } else {
        let pushed = built.push(range(start, end));
        if end >= limit {
            pushed
        } else {
            packed_windows(
                pushed,
                pieces,
                slices::next_start(start, end, overlap as int),
                limit,
                limits,
                overlap,
            )
        }
    }
}

/// The limits that settings put on packed windows.
pub open spec fn window_limits(options: LongFormOptions, ceiling: int) -> WindowLimits {
    WindowLimits {
        target_chunk_samples: max(options.chunk_samples as int, 1) as usize,
        max_chunk_samples: ceiling as usize,
        min_chunk_samples: max(options.min_chunk_samples as int, 1) as usize,
    }
}

/// The windows over sub-spans.
pub open spec fn windows_over(
    pieces: Seq<LongFormVadSlice>,
    options: LongFormOptions,
    ceiling: int,
) -> Seq<LongFormVadSlice> {
    if pieces.len() == 0 {
        Seq::empty()
    } else {
        let limits = window_limits(options, ceiling);
        packed_windows(
            Seq::empty(),
            pieces,
            pieces[0].start_sample as int,
            pieces.last().end_sample as int,
            limits,
            min(options.overlap_samples as int, max(0, limits.target_chunk_samples - 1)) as nat,
        )
    }
}

/// Packs processed spans into windows that the executor accepts: soft cuts on sub-span
/// boundaries near the target, never past the ceiling, with the configured overlap
/// where it is shorter than a chunk.
pub fn pack_processed_spans_into_windows<
    L: Fn(usize, usize) -> u32,
    O: Fn(&TimelineMap, usize) -> usize,
>(
    processed: &Vec<LongFormVadSlice>,
    sample_rate_hz: u32,
    options: &LongFormOptions,
    meter: &L,
    sample_count: usize,
    mapper: &O,
    timeline: &TimelineMap,
) -> (windows: Vec<LongFormVadSlice>)
    requires
        energy::meters(*meter, sample_count as int),
        timeline::maps(*mapper),
        options.has_ceiling(sample_rate_hz),
        forall|i: int|
            0 <= i < processed.len() ==> (#[trigger] processed@[i]).end_sample <= usize::MAX / 2,
    ensures
        windows@ == windows_over(
            subdivided(
                processed@,
                processed.len() as int,
                energy::levels_of(*meter),
                sample_count as int,
                along(timeline::originals_of(*mapper), timeline@),
                *options,
                options.ceiling(sample_rate_hz),
            ),
            *options,
            options.ceiling(sample_rate_hz),
        ),
{
    let pieces: Vec<LongFormVadSlice> = subdivide_processed_spans_silence_aware(
        processed,
        sample_rate_hz,
        options,
        meter,
        sample_count,
        mapper,
        timeline,
    );
    let mut windows: Vec<LongFormVadSlice> = Vec::new();
    if pieces.len() == 0 {
        return windows;
    }
    let limits = WindowLimits {
        target_chunk_samples: larger(options.chunk_samples, 1),
        max_chunk_samples: options.max_chunk_samples(sample_rate_hz),
        min_chunk_samples: larger(options.min_chunk_samples, 1),
    };
    let overlap_samples: usize = smaller(
        options.overlap_samples,
        limits.target_chunk_samples.saturating_sub(1),
    );
    let limit: usize = pieces[pieces.len() - 1].end_sample;
    let mut start: usize = pieces[0].start_sample;
    let ghost whole = packed_windows(
        Seq::empty(),
        pieces@,
        start as int,
        limit as int,
        limits,
        overlap_samples as nat,
    );
    while start < limit
        invariant_except_break
            whole == packed_windows(
                windows@,
                pieces@,
                start as int,
                limit as int,
                limits,
                overlap_samples as nat,
            ),
        invariant
            limits.max_chunk_samples >= 1,
            limits.min_chunk_samples >= 1,
        ensures
            whole == windows@,
        decreases limit - start,
    {
        proof {
            lemma_window_end(pieces@, 0, start as int, start as int, limit as int, limits);
        }
        let soft_end: usize = packed_window_end(start, limit, limits, &pieces);
        let remaining: usize = limit.saturating_sub(soft_end);
        let end: usize = if remaining > 0 && remaining < limits.min_chunk_samples
            && limit.saturating_sub(start) <= limits.max_chunk_samples {
            limit
        } else {
            soft_end
        };
        windows.push(LongFormVadSlice { start_sample: start, end_sample: end });
        if end >= limit {
            break;
        }
        start = advance_window_start(start, end, overlap_samples);
    }
    windows
}

/// Whether windows cover `[from, to)`: each starts inside or right at the end of the one
/// before it, moves forward, and crosses no ceiling.
pub open spec fn windows_cover(
    windows: Seq<LongFormVadSlice>,
    first: int,
    from: int,
    to: int,
    ceiling: int,
) -> bool {
    &&& 0 <= first < windows.len()
    &&& windows[first].start_sample == from
    &&& windows.last().end_sample == to
    &&& forall|i: int, j: int|
        #![trigger windows[i], windows[j]]
        first <= i && i + 1 == j && j < windows.len() ==> windows[i].start_sample
            < windows[j].start_sample <= windows[i].end_sample
    &&& forall|i: int|
        first <= i < windows.len() ==> (#[trigger] windows[i]).nonempty()
            && windows[i].end_sample <= to && windows[i].length() <= ceiling
}

proof fn lemma_packed_windows(
    built: Seq<LongFormVadSlice>,
    pieces: Seq<LongFormVadSlice>,
    start: int,
    limit: int,
    limits: WindowLimits,
    overlap: nat,
)
    requires
        0 <= start < limit <= usize::MAX,
        limits.max_chunk_samples >= 1,
        limits.min_chunk_samples >= 1,
    ensures
        ({
            let after = packed_windows(built, pieces, start, limit, limits, overlap);
            &&& windows_cover(
                after,
                built.len() as int,
                start,
                limit,
                limits.max_chunk_samples as int,
            )
            &&& forall|i: int| 0 <= i < built.len() ==> #[trigger] after[i] == built[i]
        }),
    decreases limit - start,
{
    lemma_window_end(pieces, 0, start, start, limit, limits);
    let end = packed_end(pieces, start, limit, limits);
    let pushed = built.push(range(start, end));
    let after = packed_windows(built, pieces, start, limit, limits, overlap);
    if end < limit {
        lemma_packed_windows(
            pushed,
            pieces,
            slices::next_start(start, end, overlap as int),
            limit,
            limits,
            overlap,
        );
        assert(after[built.len() as int] == pushed[built.len() as int]);
        assert forall|i: int| 0 <= i < built.len() implies #[trigger] after[i] == built[i] by {
            assert(after[i] == pushed[i]);
        }
    }
}

/// Packed windows cover the packed timeline, from the first sub-span to the last, with
/// no gap, and none crosses the executor ceiling.
pub proof fn law_packed_windows_cover_the_timeline(
    pieces: Seq<LongFormVadSlice>,
    options: LongFormOptions,
    ceiling: int,
)
    requires
        pieces.len() > 0,
        pieces[0].start_sample < pieces.last().end_sample,
        1 <= ceiling <= usize::MAX,
    ensures
        windows_cover(
            windows_over(pieces, options, ceiling),
            0,
            pieces[0].start_sample as int,
            pieces.last().end_sample as int,
            ceiling,
        ),
{
    let limits = window_limits(options, ceiling);
    lemma_packed_windows(
        Seq::empty(),
        pieces,
        pieces[0].start_sample as int,
        pieces.last().end_sample as int,
        limits,
        min(options.overlap_samples as int, max(0, limits.target_chunk_samples - 1)) as nat,
    );
}

/// Whether some sub-span ends in `[from, to]`.
pub open spec fn some_piece_ends(pieces: Seq<LongFormVadSlice>, from: int, to: int) -> bool {
    exists|i: int| 0 <= i < pieces.len() && from <= (#[trigger] pieces[i]).end_sample <= to
}

/// A packed window ends on the last sub-span that ends within the target, where that leaves
/// it long enough; else on the first one that ends behind the target and within the ceiling;
/// else at the ceiling, or with the timeline.
pub proof fn law_packed_windows_end_on_spans(
    pieces: Seq<LongFormVadSlice>,
    start: int,
    limit: int,
    limits: WindowLimits,
)
    requires
        pieces.len() > 0,
        pieces.last().end_sample == limit,
        0 <= start < limit,
        1 <= limits.min_chunk_samples <= limits.target_chunk_samples <= limits.max_chunk_samples,
        forall|i: int, j: int|
            0 <= i < j < pieces.len() ==> (#[trigger] pieces[i]).end_sample < (
            #[trigger] pieces[j]).end_sample,
    ensures
        ({
            let end = window_end_from(pieces, 0, start, start, limit, limits);
            let least = start + limits.min_chunk_samples;
            let target = start + limits.target_chunk_samples;
            let most = start + limits.max_chunk_samples;
            if some_piece_ends(pieces, least, target) {
                &&& least <= end <= target
                &&& some_piece_ends(pieces, end, end)
                &&& !some_piece_ends(pieces, end + 1, target)
            } else if some_piece_ends(pieces, target + 1, most) {
                &&& target < end <= most
                &&& some_piece_ends(pieces, end, end)
                &&& !some_piece_ends(pieces, target + 1, end - 1)
            } else {
                end == min(most, limit)
            }
        }),
{
    lemma_window_ends_on_a_span(pieces, 0, start, start, limit, limits);
}

proof fn lemma_window_ends_on_a_span(
    pieces: Seq<LongFormVadSlice>,
    at: int,
    current_end: int,
    start: int,
    limit: int,
    limits: WindowLimits,
)
    requires
        0 <= at <= pieces.len(),
        pieces.len() > 0,
        pieces.last().end_sample == limit,
        0 <= start < limit,
        1 <= limits.min_chunk_samples <= limits.target_chunk_samples <= limits.max_chunk_samples,
        forall|i: int, j: int|
            0 <= i < j < pieces.len() ==> (#[trigger] pieces[i]).end_sample < (
            #[trigger] pieces[j]).end_sample,
        start <= current_end,
        current_end > start ==> at > 0 && current_end == pieces[at - 1].end_sample,
        current_end == start ==> forall|i: int|
            0 <= i < at ==> (#[trigger] pieces[i]).end_sample <= start,
        current_end > start + limits.target_chunk_samples ==> !some_piece_ends(
            pieces,
            start + limits.min_chunk_samples,
            current_end - 1,
        ),
        current_end < start + limits.max_chunk_samples,
    ensures
        ({
            let end = window_end_from(pieces, at, current_end, start, limit, limits);
            let least = start + limits.min_chunk_samples;
            let target = start + limits.target_chunk_samples;
            let most = start + limits.max_chunk_samples;
            if some_piece_ends(pieces, least, target) {
                &&& least <= end <= target
                &&& some_piece_ends(pieces, end, end)
                &&& !some_piece_ends(pieces, end + 1, target)
            } else if some_piece_ends(pieces, target + 1, most) {
                &&& target < end <= most
                &&& some_piece_ends(pieces, end, end)
                &&& !some_piece_ends(pieces, target + 1, end - 1)
            } else {
                end == min(most, limit)
            }
        }),
    decreases pieces.len() - at,
{
    let least = start + limits.min_chunk_samples;
    let target = start + limits.target_chunk_samples;
    let most = start + limits.max_chunk_samples;
    let end = window_end_from(pieces, at, current_end, start, limit, limits);
    let last = pieces.len() - 1;
    assert(pieces[last].end_sample == limit);
    if at < pieces.len() {
        let reached = pieces[at].end_sample as int;
        assert(reached <= limit) by {
            if at < last {
                assert(pieces[at].end_sample < pieces[last].end_sample);
            }
        }
        assert forall|i: int| 0 <= i < at && current_end > start implies (
        #[trigger] pieces[i]).end_sample <= current_end by {
            if i < at - 1 {
                assert(pieces[i].end_sample < pieces[at - 1].end_sample);
            }
        }
        assert forall|i: int| at <= i < pieces.len() implies reached <= (
        #[trigger] pieces[i]).end_sample by {
            if at < i {
                assert(pieces[at].end_sample < pieces[i].end_sample);
            }
        }
        assert(current_end > start ==> current_end < reached) by {
            if current_end > start {
                assert(pieces[at - 1].end_sample < pieces[at].end_sample);
            }
        }
        if reached <= start {
            lemma_window_ends_on_a_span(pieces, at + 1, current_end, start, limit, limits);
        } else if reached > min(most, limit) || (reached > target && current_end >= least)
            || reached >= min(most, limit) {
            if current_end > start {
                assert(pieces[at - 1].end_sample == current_end);
                assert(current_end <= target ==> some_piece_ends(
                    pieces,
                    current_end,
                    current_end,
                ));
            }
            if some_piece_ends(pieces, least, target) {
                let i = choose|i: int|
                    0 <= i < pieces.len() && least <= (#[trigger] pieces[i]).end_sample <= target;
                assert(current_end <= target);
                if reached <= target {
                    assert(reached == most || reached == limit);
                    assert(pieces[at].end_sample == end);
                }
            } else if some_piece_ends(pieces, target + 1, most) {
                let i = choose|i: int|
                    0 <= i < pieces.len() && target + 1 <= (#[trigger] pieces[i]).end_sample
                        <= most;
                if current_end >= least {
                    assert(current_end > target) by {
                        if current_end <= target {
                            assert(pieces[at - 1].end_sample == current_end);
                        }
                    }
                    assert(pieces[at - 1].end_sample == current_end);
                    assert(end == current_end);
                } else {
                    assert(pieces[at].end_sample == reached);
                }
            } else {
                assert(current_end < least) by {
                    if current_end >= least {
                        assert(pieces[at - 1].end_sample == current_end);
                    }
                }
            }
        } else {
            assert(reached > target ==> !some_piece_ends(pieces, least, reached - 1)) by {
                if some_piece_ends(pieces, least, reached - 1) {
                    let i = choose|i: int|
                        0 <= i < pieces.len() && least <= (#[trigger] pieces[i]).end_sample
                            <= reached - 1;
                    if current_end == start {
                        assert(pieces[i].end_sample <= start);
                    }
                }
            }
            lemma_window_ends_on_a_span(pieces, at + 1, reached, start, limit, limits);
        }
    } else {
        assert(current_end == limit) by {
            if current_end == start {
                assert(pieces[last].end_sample <= start);
            }
        }
        assert(pieces[at - 1].end_sample == current_end);
        assert forall|i: int| 0 <= i < pieces.len() implies (#[trigger] pieces[i]).end_sample
            <= limit by {
            if i < last {
                assert(pieces[i].end_sample < pieces[last].end_sample);
            }
        }
    }
}

/// Every packed window of a finished plan ends on a sub-span as its limits want it, or takes
/// in a tail shorter than the least chunk where the ceiling lets it; the next one starts the
/// overlap before its end, or right there where that would not move forward.
pub proof fn law_packed_windows_follow_one_another(
    built: Seq<LongFormVadSlice>,
    pieces: Seq<LongFormVadSlice>,
    start: int,
    limit: int,
    limits: WindowLimits,
    overlap: nat,
)
    requires
        0 <= start < limit <= usize::MAX,
        limits.max_chunk_samples >= 1,
        limits.min_chunk_samples >= 1,
    ensures
        ({
            let windows = packed_windows(built, pieces, start, limit, limits, overlap);
            &&& built.len() < windows.len()
            &&& windows[built.len() as int].start_sample == start
            &&& forall|i: int| 0 <= i < built.len() ==> #[trigger] windows[i] == built[i]
            &&& forall|i: int|
                built.len() <= i < windows.len() ==> {
                    let from = (#[trigger] windows[i]).start_sample as int;
                    let soft = window_end_from(pieces, 0, from, from, limit, limits);
                    windows[i].end_sample == if soft < limit && limit - soft
                        < limits.min_chunk_samples && limit - from <= limits.max_chunk_samples {
                        limit
                    } else {
                        soft
                    }
                }
            &&& forall|i: int, j: int|
                #![trigger windows[i], windows[j]]
                built.len() <= i && i + 1 == j && j < windows.len() ==> windows[j].start_sample
                    == if windows[i].end_sample - overlap > windows[i].start_sample {
                    windows[i].end_sample - overlap
                } else {
                    windows[i].end_sample as int
                }
        }),
    decreases limit - start,
{
    lemma_window_end(pieces, 0, start, start, limit, limits);
    let end = packed_end(pieces, start, limit, limits);
    let pushed = built.push(range(start, end));
    let windows = packed_windows(built, pieces, start, limit, limits, overlap);
    if end < limit {
        law_packed_windows_follow_one_another(
            pushed,
            pieces,
            slices::next_start(start, end, overlap as int),
            limit,
            limits,
            overlap,
        );
        assert(windows[built.len() as int] == pushed[built.len() as int]);
        assert forall|i: int| 0 <= i < built.len() implies #[trigger] windows[i] == built[i] by {
            assert(windows[i] == pushed[i]);
        }
    }
}

/// Windows over sub-spans run from the first of them to the last, aim at a chunk, are no
/// longer than the ceiling, and overlap as configured but by less than a chunk.
pub proof fn law_windows_aim_at_a_chunk(
    pieces: Seq<LongFormVadSlice>,
    options: LongFormOptions,
    ceiling: int,
    limits: WindowLimits,
    overlap: nat,
)
    requires
        pieces.len() > 0,
        1 <= ceiling <= usize::MAX,
        options.chunk_samples >= 1,
        options.min_chunk_samples >= 1,
        limits.target_chunk_samples == options.chunk_samples,
        limits.max_chunk_samples == ceiling,
        limits.min_chunk_samples == options.min_chunk_samples,
        options.overlap_samples < options.chunk_samples ==> overlap == options.overlap_samples,
        options.overlap_samples >= options.chunk_samples ==> overlap == options.chunk_samples - 1,
    ensures
        windows_over(pieces, options, ceiling) == packed_windows(
            Seq::empty(),
            pieces,
            pieces[0].start_sample as int,
            pieces.last().end_sample as int,
            limits,
            overlap,
        ),
{
}

// ---------------------------------------------------------------------------
// Copying the audio
// ---------------------------------------------------------------------------

/// `count` copies of one value.
pub open spec fn repeated<T>(value: T, count: int) -> Seq<T> {
    Seq::new(count as nat, |i: int| value)
}

/// The packed audio of the first `count` spans.
pub open spec fn packed_audio<T>(
    samples: Seq<T>,
    kept: Seq<LongFormVadSlice>,
    count: int,
    seam: int,
    silence: T,
) -> Seq<T>
    decreases count,
{
    if count <= 0 {
        Seq::empty()
    } else {
        let before = packed_audio(samples, kept, count - 1, seam, silence);
        let joined = if count == 1 {
            before
        } else {
            before + repeated(silence, seam)
        };
        let span = kept[count - 1];
        joined + samples.subrange(span.start_sample as int, span.end_sample as int)
    }
}

/// Whether every span can be copied out of a recording.
pub open spec fn all_copyable(kept: Seq<LongFormVadSlice>, total: int) -> bool {
    forall|i: int|
        0 <= i < kept.len() ==> (#[trigger] kept[i]).start_sample <= kept[i].end_sample <= total
}

/// The packed audio is as long as the plan says.
pub proof fn law_packed_audio_length<T>(
    samples: Seq<T>,
    kept: Seq<LongFormVadSlice>,
    count: int,
    seam: int,
    silence: T,
)
    requires
        0 <= count <= kept.len(),
        spans::all_inside(kept, samples.len() as int),
        0 <= seam,
    ensures
        packed_audio(samples, kept, count, seam, silence).len() == packed_through(
            kept,
            count,
            samples.len() as int,
            seam,
        ).cursor,
    decreases count,
{
    if count > 0 {
        law_packed_audio_length(samples, kept, count - 1, seam, silence);
        assert(is_packable(kept[count - 1], samples.len() as int));
    }
}

/// Each kept span lies in the packed audio where the packing puts it, sample for sample, and
/// everything else is silence.
pub proof fn law_packed_audio_holds_every_span<T>(
    samples: Seq<T>,
    kept: Seq<LongFormVadSlice>,
    count: int,
    seam: int,
    silence: T,
)
    requires
        0 <= count <= kept.len(),
        spans::all_inside(kept, samples.len() as int),
        0 <= seam,
        packed_through(kept, count, samples.len() as int, seam).cursor <= usize::MAX,
    ensures
        ({
            let audio = packed_audio(samples, kept, count, seam, silence);
            let placed = packed_through(kept, count, samples.len() as int, seam).processed;
            &&& placed.len() == count
            &&& forall|i: int|
                0 <= i < count ==> (#[trigger] placed[i]).end_sample <= audio.len()
                    && audio.subrange(
                    placed[i].start_sample as int,
                    placed[i].end_sample as int,
                ) == samples.subrange(kept[i].start_sample as int, kept[i].end_sample as int)
            &&& forall|x: int|
                0 <= x < audio.len() && !spans::some_holds(placed, x) ==> #[trigger] audio[x]
                    == silence
        }),
    decreases count,
{
    if count > 0 {
        let total = samples.len() as int;
        let audio = packed_audio(samples, kept, count, seam, silence);
        let placed = packed_through(kept, count, total, seam).processed;
        let before = packed_audio(samples, kept, count - 1, seam, silence);
        let placed_before = packed_through(kept, count - 1, total, seam).processed;
        lemma_cursor_grows(kept, count - 1, count, total, seam);
        law_packed_audio_holds_every_span(samples, kept, count - 1, seam, silence);
        law_packed_audio_length(samples, kept, count - 1, seam, silence);
        law_packed_audio_length(samples, kept, count, seam, silence);
        assert(is_packable(kept[count - 1], total));
        assert forall|i: int| 0 <= i < count implies (#[trigger] placed[i]).end_sample
            <= audio.len() && audio.subrange(
            placed[i].start_sample as int,
            placed[i].end_sample as int,
        ) == samples.subrange(kept[i].start_sample as int, kept[i].end_sample as int) by {
            let from = placed[i].start_sample as int;
            let to = placed[i].end_sample as int;
            if i < count - 1 {
                assert(placed[i] == placed_before[i]);
                lemma_processed_spans_in_order(kept, count - 1, total, seam);
                assert(placed_before[i].nonempty());
                assert(audio.subrange(from, to) =~= before.subrange(from, to));
            } else {
                assert(audio.subrange(from, to) =~= samples.subrange(
                    kept[i].start_sample as int,
                    kept[i].end_sample as int,
                ));
            }
        }
        assert forall|x: int|
            0 <= x < audio.len() && !spans::some_holds(placed, x) implies #[trigger] audio[x]
            == silence by {
            if x < before.len() {
                if spans::some_holds(placed_before, x) {
                    let i = choose|i: int|
                        0 <= i < placed_before.len() && (#[trigger] placed_before[i]).holds(x);
                    assert(placed[i].holds(x));
                }
                assert(audio[x] == before[x]);
            } else {
                assert(!placed[count - 1].holds(x));
            }
        }
    }
}

/// Copies the kept spans of a recording into one packed recording, with `silence` on
/// the seams, unless the request is canceled on the way.
pub fn materialize_packed_audio<T: Copy, C: Fn() -> bool>(
    samples: &[T],
    plan: &PackedAudioMaterializationPlan,
    silence: T,
    canceled: &C,
) -> (audio: Result<Vec<T>, LongFormSliceError>)
    requires
        call_requires(*canceled, ()),
        all_copyable(plan.spans@, samples@.len() as int),
    ensures
        match audio {
            Ok(packed_samples) => packed_samples@ == packed_audio(
                samples@,
                plan.spans@,
                plan.spans.len() as int,
                plan.seam_samples as int,
                silence,
            ) && call_ensures(*canceled, (), false),
            Err(error) => error == LongFormSliceError::Canceled && call_ensures(
                *canceled,
                (),
                true,
            ),
        },
{
    let mut audio: Vec<T> = Vec::new();
    let mut at: usize = 0;
    while at < plan.spans.len()
        invariant
            at <= plan.spans.len(),
            call_requires(*canceled, ()),
            all_copyable(plan.spans@, samples@.len() as int),
            audio@ == packed_audio(
                samples@,
                plan.spans@,
                at as int,
                plan.seam_samples as int,
                silence,
            ),
        decreases plan.spans.len() - at,
    {
        if let Err(error) = check_planning_canceled(canceled) {
            return Err(error);
        }
        let span: LongFormVadSlice = plan.spans[at];
        let ghost before = audio@;
        if at > 0 {
            let mut laid: usize = 0;
            while laid < plan.seam_samples
                invariant
                    laid <= plan.seam_samples,
                    audio@ == before + repeated(silence, laid as int),
                decreases plan.seam_samples - laid,
            {
                audio.push(silence);
                laid = laid + 1;
                assert(audio@ =~= before + repeated(silence, laid as int));
            }
        }
        let ghost joined = audio@;
        let mut from: usize = span.start_sample;
        assert(audio@ =~= joined + samples@.subrange(span.start_sample as int, from as int));
        while from < span.end_sample
            invariant
                span.start_sample <= from <= span.end_sample <= samples@.len(),
                audio@ == joined + samples@.subrange(span.start_sample as int, from as int),
            decreases span.end_sample - from,
        {
            audio.push(samples[from]);
            from = from + 1;
            assert(audio@ =~= joined + samples@.subrange(span.start_sample as int, from as int));
        }
        at = at + 1;
    }
    if let Err(error) = check_planning_canceled(canceled) {
        return Err(error);
    }
    Ok(audio)
}

} // verus!
