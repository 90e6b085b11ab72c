//! One way to cut a recording: its slices, and the timeline that they lie on.

use vstd::math::*;
use vstd::prelude::*;

use crate::longform::energy;
use crate::longform::options::LongFormOptions;
use crate::longform::packing;
use crate::longform::packing::{
    build_packed_audio_materialization_plan, pack_processed_spans_into_windows, packed_length,
    PackedAudioMaterializationPlan, PackedPlan,
};
use crate::longform::slices;
use crate::longform::slices::{larger, unpadded_slice, AudioSlice, AudioSliceKind, LongFormVadSlice};
use crate::longform::spans;
use crate::longform::spans::{
    coalesce_vad_slices, expand_and_merge_keep_spans, kept_and_dropped, CoalesceLimits,
};
use crate::text;
use crate::longform::timeline;
use crate::longform::timeline::{TimelineAnchor, TimelineMap};
use crate::longform::windows;
use crate::longform::windows::extend_vad_slices_for_span;

verus! {

/// One way to cut a recording.
#[derive(Debug, PartialEq, Eq)]
pub struct LongFormPlanningLayout {
    pub slices: Vec<AudioSlice>,
    /// Length of the packed audio, once it has been made.
    pub processed_audio_samples: Option<usize>,
    /// How to make it, where the slices lie on a packed timeline.
    pub packed_audio_plan: Option<PackedAudioMaterializationPlan>,
    pub timeline: TimelineMap,
    pub selection_provenance: Vec<String>,
}

/// A [`LongFormPlanningLayout`] as a value.
#[verifier::ext_equal]
pub struct Layout {
    pub slices: Seq<AudioSlice>,
    pub processed_audio_samples: Option<usize>,
    pub packed: Option<PackedPlan>,
    pub anchors: Seq<TimelineAnchor>,
    pub provenance: Seq<Seq<char>>,
}

impl View for LongFormPlanningLayout {
    type V = Layout;

    open spec fn view(&self) -> Layout {
        Layout {
            slices: self.slices@,
            processed_audio_samples: self.processed_audio_samples,
            packed: match self.packed_audio_plan {
                Some(plan) => Some(plan@),
                None => None,
            },
            anchors: self.timeline@,
            provenance: text::texts(self.selection_provenance@),
        }
    }
}

/// Slices on the recording's own timeline.
pub open spec fn identity_layout(planned: Seq<AudioSlice>) -> Layout {
    Layout {
        slices: planned,
        processed_audio_samples: None,
        packed: None,
        anchors: Seq::empty(),
        provenance: Seq::empty(),
    }
}

impl Layout {
    /// Whether the slices lie on a packed timeline.
    pub open spec fn is_packed(self) -> bool {
        self.processed_audio_samples is Some || self.packed is Some
    }

    /// The ranges of the recording that the layout reads.
    pub open spec fn ranges(self) -> Seq<LongFormVadSlice> {
        match self.packed {
            Some(plan) => plan.spans,
            None => Seq::new(
                self.slices.len(),
                |i: int|
                    LongFormVadSlice {
                        start_sample: self.slices[i].start_sample,
                        end_sample: self.slices[i].end_sample,
                    },
            ),
        }
    }

    /// What the layout keeps of a recording.
    pub open spec fn kept(self, total: int) -> Seq<LongFormVadSlice> {
        spans::kept_ranges(self.ranges(), total)
    }

    /// What the layout drops of a recording.
    pub open spec fn dropped(self, total: int) -> Seq<LongFormVadSlice> {
        spans::dropped_ranges(self.kept(total), total)
    }
}

/// Slices on the recording's own timeline.
pub fn layout_from_identity_slices(planned: Vec<AudioSlice>) -> (layout: LongFormPlanningLayout)
    ensures
        layout@ == identity_layout(planned@),
{
    let layout = LongFormPlanningLayout {
        slices: planned,
        processed_audio_samples: None,
        packed_audio_plan: None,
        timeline: TimelineMap::identity(),
        selection_provenance: Vec::new(),
    };
    assert(layout@ =~= identity_layout(planned@));
    layout
}

/// Whether the slices lie on a packed timeline.
pub fn layout_uses_packed_timeline(layout: &LongFormPlanningLayout) -> (packed: bool)
    ensures
        packed == layout@.is_packed(),
{
    layout.processed_audio_samples.is_some() || layout.packed_audio_plan.is_some()
}

/// The ranges of the recording that a layout keeps, and those that it drops: before the
/// first kept range, between two, and after the last.
pub fn candidate_kept_and_dropped_ranges(
    layout: &LongFormPlanningLayout,
    total_samples: usize,
) -> (parts: (Vec<LongFormVadSlice>, Vec<LongFormVadSlice>))
    ensures
        parts.0@ == layout@.kept(total_samples as int),
        parts.1@ == layout@.dropped(total_samples as int),
{
    match &layout.packed_audio_plan {
        Some(plan) => kept_and_dropped(&plan.spans, total_samples),
        None => {
            let mut ranges: Vec<LongFormVadSlice> = Vec::new();
            let mut at: usize = 0;
            while at < layout.slices.len()
                invariant
                    at <= layout.slices.len(),
                    layout.packed_audio_plan is None,
                    ranges@ == layout@.ranges().take(at as int),
                decreases layout.slices.len() - at,
            {
                let slice: AudioSlice = layout.slices[at];
                ranges.push(
                    LongFormVadSlice {
                        start_sample: slice.start_sample,
                        end_sample: slice.end_sample,
                    },
                );
                at = at + 1;
                assert(ranges@ =~= layout@.ranges().take(at as int));
            }
            assert(ranges@ =~= layout@.ranges());
            kept_and_dropped(&ranges, total_samples)
        },
    }
}

// ---------------------------------------------------------------------------
// Layouts from spans of speech
// ---------------------------------------------------------------------------

/// The limits that settings put on regions of speech.
pub open spec fn region_limits(options: LongFormOptions, ceiling: int) -> CoalesceLimits {
    CoalesceLimits {
        target_chunk_samples: ceiling as usize,
        min_chunk_samples: max(options.min_chunk_samples as int, 1) as usize,
        gap_bridge_samples: options.gap_bridge_samples,
    }
}

/// The regions of speech that a detector's spans make under given settings.
pub open spec fn speech_regions(
    speech: Seq<LongFormVadSlice>,
    total: int,
    options: LongFormOptions,
    ceiling: int,
) -> Seq<LongFormVadSlice> {
    spans::coalesced(speech, region_limits(options, ceiling), total)
}

/// Joins a detector's spans into regions: short pauses are bridged up to the ceiling,
/// so that a boundary the detector drew inside a word does not end a region.
fn regions_of_speech(
    speech_spans: Vec<LongFormVadSlice>,
    sample_count: usize,
    max_chunk_samples: usize,
    options: &LongFormOptions,
) -> (regions: Vec<LongFormVadSlice>)
    ensures
        regions@ == speech_regions(
            speech_spans@,
            sample_count as int,
            *options,
            max_chunk_samples as int,
        ),
{
    coalesce_vad_slices(
        speech_spans,
        CoalesceLimits {
            target_chunk_samples: max_chunk_samples,
            min_chunk_samples: larger(options.min_chunk_samples, 1),
            gap_bridge_samples: options.gap_bridge_samples,
        },
        sample_count,
    )
}

/// The voice-activity slices of the first `count` regions.
pub open spec fn vad_slices_of_regions(
    regions: Seq<LongFormVadSlice>,
    count: int,
    levels: spec_fn(int, int) -> u32,
    sample_count: int,
    options: LongFormOptions,
    ceiling: int,
) -> Seq<AudioSlice>
    decreases count,
{
    if count <= 0 {
        Seq::empty()
    } else {
        windows::vad_slices(
            vad_slices_of_regions(regions, count - 1, levels, sample_count, options, ceiling),
            levels,
            sample_count,
            regions[count - 1].start_sample as int,
            regions[count - 1].end_sample as int,
            options,
            ceiling,
        )
    }
}

/// The voice-activity slices that a detector's spans make.
pub open spec fn vad_slices_of_speech(
    speech: Seq<LongFormVadSlice>,
    levels: spec_fn(int, int) -> u32,
    sample_count: int,
    options: LongFormOptions,
    ceiling: int,
) -> Seq<AudioSlice> {
    let regions = speech_regions(speech, sample_count, options, ceiling);
    vad_slices_of_regions(
        regions,
        regions.len() as int,
        levels,
        sample_count,
        options,
        ceiling,
    )
}

/// Slices over the regions of speech: short pauses are bridged into regions up to the
/// ceiling, and each region is cut at silence-aware boundaries.
pub fn plan_vad_slices_from_speech_spans<L: Fn(usize, usize) -> u32>(
    meter: &L,
    sample_count: usize,
    sample_rate_hz: u32,
    options: &LongFormOptions,
    speech_spans: Vec<LongFormVadSlice>,
) -> (planned: Vec<AudioSlice>)
    requires
        energy::meters(*meter, sample_count as int),
        options.has_ceiling(sample_rate_hz),
        windows::vad_windows_advance(*options, options.ceiling(sample_rate_hz)),
    ensures
        planned@ == vad_slices_of_speech(
            speech_spans@,
            energy::levels_of(*meter),
            sample_count as int,
            *options,
            options.ceiling(sample_rate_hz),
        ),
{
    let max_chunk_samples: usize = options.max_chunk_samples(sample_rate_hz);
    let ghost speech = speech_spans@;
    let regions: Vec<LongFormVadSlice> = regions_of_speech(
        speech_spans,
        sample_count,
        max_chunk_samples,
        options,
    );
    proof {
        spans::law_coalescing_keeps_all_speech(
            speech,
            region_limits(*options, max_chunk_samples as int),
            sample_count as int,
        );
    }
    let mut planned: Vec<AudioSlice> = Vec::new();
    let mut at: usize = 0;
    while at < regions.len()
        invariant
            at <= regions.len(),
            energy::meters(*meter, sample_count as int),
            options.has_ceiling(sample_rate_hz),
            max_chunk_samples == options.ceiling(sample_rate_hz),
            windows::vad_windows_advance(*options, max_chunk_samples as int),
            spans::all_inside(regions@, sample_count as int),
            planned@ == vad_slices_of_regions(
                regions@,
                at as int,
                energy::levels_of(*meter),
                sample_count as int,
                *options,
                max_chunk_samples as int,
            ),
        decreases regions.len() - at,
    {
        let region: LongFormVadSlice = regions[at];
        assert(regions@[at as int].nonempty());
        extend_vad_slices_for_span(
            &mut planned,
            meter,
            sample_count,
            region.start_sample,
            region.end_sample,
            sample_rate_hz,
            options,
        );
        at = at + 1;
    }
    planned
}

/// Slices that carry a packed timeline's windows.
pub open spec fn slices_of_windows(
    windows: Seq<LongFormVadSlice>,
    kind: AudioSliceKind,
) -> Seq<AudioSlice> {
    Seq::new(
        windows.len(),
        |i: int|
            slices::plain_slice(
                i,
                kind,
                windows[i].start_sample as int,
                windows[i].end_sample as int,
            ),
    )
}

/// The spans that a packed layout keeps: the regions of speech, padded, with those that
/// then touch merged.
pub open spec fn padded_regions(
    speech: Seq<LongFormVadSlice>,
    total: int,
    options: LongFormOptions,
    ceiling: int,
) -> Seq<LongFormVadSlice> {
    let regions = speech_regions(speech, total, options, ceiling);
    spans::widened_and_merged(
        regions,
        regions.len() as int,
        total,
        options.padding_samples as int,
    )
}

/// The packed layout that a detector's spans make, if there are at least two of them,
/// anything is left to pack, and the packed timeline can be held.
pub open spec fn packed_layout(
    speech: Seq<LongFormVadSlice>,
    kind: AudioSliceKind,
    levels: spec_fn(int, int) -> u32,
    originals: spec_fn(Seq<TimelineAnchor>, int) -> int,
    sample_count: int,
    options: LongFormOptions,
    ceiling: int,
) -> Option<Layout> {
    let kept = padded_regions(speech, sample_count, options, ceiling);
    let packing = packing::packed(kept, sample_count, options.seam_samples as int);
    let pieces = packing::subdivided(
        packing.processed,
        packing.processed.len() as int,
        levels,
        sample_count,
        packing::along(originals, packing.anchors),
        options,
        ceiling,
    );
    let windows = packing::windows_over(pieces, options, ceiling);
    if speech.len() < 2 || packing.cursor == 0 || !packing::can_be_held(packing.cursor)
        || windows.len() == 0 {
        None
    } else {
        Some(
            Layout {
                slices: slices_of_windows(windows, kind),
                processed_audio_samples: None,
                packed: Some(
                    PackedPlan {
                        spans: kept,
                        seam_samples: options.seam_samples,
                        processed_samples: packing.cursor as usize,
                    },
                ),
                anchors: packing.anchors,
                provenance: Seq::empty(),
            },
        )
    }
}

/// Regions of speech, padded and merged, lie inside the recording one after another, and a
/// packed timeline of them that can be held takes each of them in.
pub proof fn law_padded_regions_fit(
    speech: Seq<LongFormVadSlice>,
    total: int,
    options: LongFormOptions,
    ceiling: int,
)
    requires
        0 <= total <= usize::MAX,
    ensures
        ({
            let kept = padded_regions(speech, total, options, ceiling);
            let packing = packing::packed(kept, total, options.seam_samples as int);
            &&& spans::all_inside(kept, total)
            &&& spans::separated(kept)
            &&& 0 <= packing.cursor
            &&& packing.processed.len() == kept.len()
            &&& kept.len() > 0 ==> packing.cursor > 0
            &&& packing::can_be_held(packing.cursor) ==> forall|i: int|
                0 <= i < packing.processed.len() ==> (#[trigger] packing.processed[i]).nonempty()
                    && packing.processed[i].end_sample <= packing.cursor
        }),
{
    let limits = region_limits(options, ceiling);
    let regions = spans::coalesced(speech, limits, total);
    let kept = padded_regions(speech, total, options, ceiling);
    let seam = options.seam_samples as int;
    spans::law_coalescing_keeps_all_speech(speech, limits, total);
    spans::law_merging_keeps_and_separates(
        regions,
        regions.len() as int,
        total,
        options.padding_samples as int,
    );
    packing::law_packed_length(kept, kept.len() as int, total, seam);
    if packing::can_be_held(packing::packed(kept, total, seam).cursor) {
        packing::lemma_processed_spans_in_order(kept, kept.len() as int, total, seam);
    }
}

/// Packs what a detector calls speech: regions bridged across short pauses, padded,
/// laid one after another with a seam between two, and cut into windows. A timeline too
/// long to be held is not offered.
pub fn plan_packed_layout_from_speech_spans<
    L: Fn(usize, usize) -> u32,
    O: Fn(&TimelineMap, usize) -> usize,
>(
    meter: &L,
    mapper: &O,
    sample_count: usize,
    sample_rate_hz: u32,
    options: &LongFormOptions,
    kind: AudioSliceKind,
    speech_spans: Vec<LongFormVadSlice>,
) -> (layout: Option<LongFormPlanningLayout>)
    requires
        energy::meters(*meter, sample_count as int),
        timeline::maps(*mapper),
        options.has_ceiling(sample_rate_hz),
    ensures
        ({
            let expected = packed_layout(
                speech_spans@,
                kind,
                energy::levels_of(*meter),
                timeline::originals_of(*mapper),
                sample_count as int,
                *options,
                options.ceiling(sample_rate_hz),
            );
            match layout {
                Some(made) => expected == Some(made@),
                None => expected is None,
            }
        }),
{
    if speech_spans.len() < 2 {
        return None;
    }
    let max_chunk_samples: usize = options.max_chunk_samples(sample_rate_hz);
    let ghost speech = speech_spans@;
    let ghost ceiling = max_chunk_samples as int;
    let regions: Vec<LongFormVadSlice> = regions_of_speech(
        speech_spans,
        sample_count,
        max_chunk_samples,
        options,
    );
    let kept: Vec<LongFormVadSlice> = expand_and_merge_keep_spans(
        regions,
        sample_count,
        options.padding_samples,
    );
    proof {
        law_padded_regions_fit(speech, sample_count as int, *options, ceiling);
    }
    if packed_length(&kept, sample_count, options.seam_samples).is_none() {
        return None;
    }
    let (plan, timeline, processed) = match build_packed_audio_materialization_plan(
        &kept,
        sample_count,
        options.seam_samples,
    ) {
        Some(built) => built,
        None => {
            return None;
        },
    };
    let windows: Vec<LongFormVadSlice> = pack_processed_spans_into_windows(
        &processed,
        sample_rate_hz,
        options,
        meter,
        sample_count,
        mapper,
        &timeline,
    );
    let mut planned: Vec<AudioSlice> = Vec::new();
    let mut at: usize = 0;
    while at < windows.len()
        invariant
            at <= windows.len(),
            planned@ == slices_of_windows(windows@, kind).take(at as int),
        decreases windows.len() - at,
    {
        let window: LongFormVadSlice = windows[at];
        planned.push(unpadded_slice(at, kind, window.start_sample, window.end_sample));
        at = at + 1;
        assert(planned@ =~= slices_of_windows(windows@, kind).take(at as int));
    }
    assert(planned@ =~= slices_of_windows(windows@, kind));
    if planned.len() == 0 {
        return None;
    }
    let layout = LongFormPlanningLayout {
        slices: planned,
        processed_audio_samples: None,
        packed_audio_plan: Some(plan),
        timeline,
        selection_provenance: Vec::new(),
    };
    assert(layout@.provenance =~= Seq::empty());
    Some(layout)
}

// ---------------------------------------------------------------------------
// What every layout that is planned under a ceiling keeps to
// ---------------------------------------------------------------------------

/// Whether a layout can be decoded: every slice holds samples of its timeline and fits
/// the ceiling, and a packed timeline is a packing of separate spans of the recording.
pub open spec fn is_sound(layout: Layout, total: int, ceiling: int) -> bool {
    &&& layout.processed_audio_samples is None
    &&& slices::content_within(layout.slices, ceiling)
    &&& match layout.packed {
        None => slices::content_inside(layout.slices, total),
        Some(plan) => {
            &&& spans::all_inside(plan.spans, total)
            &&& spans::separated(plan.spans)
            &&& plan.processed_samples == packing::packed(
                plan.spans,
                total,
                plan.seam_samples as int,
            ).cursor
            &&& slices::content_inside(layout.slices, plan.processed_samples as int)
            &&& slices::windows_within(layout.slices, ceiling)
        },
    }
}

/// A packed layout is sound, and its windows cover the packed timeline from its start
/// to its end without a gap.
pub proof fn law_packed_layout_is_sound(
    speech: Seq<LongFormVadSlice>,
    kind: AudioSliceKind,
    levels: spec_fn(int, int) -> u32,
    originals: spec_fn(Seq<TimelineAnchor>, int) -> int,
    sample_count: int,
    options: LongFormOptions,
    ceiling: int,
)
    requires
        0 <= sample_count <= usize::MAX,
        1 <= ceiling <= usize::MAX,
    ensures
        packed_layout(speech, kind, levels, originals, sample_count, options, ceiling) matches Some(
            layout,
        ) ==> {
            &&& is_sound(layout, sample_count, ceiling)
            &&& layout.packed is Some
            &&& layout.slices[0].content_start_sample == 0
            &&& layout.slices.last().content_end_sample == layout.packed->Some_0.processed_samples
            &&& forall|i: int, j: int|
                #![trigger layout.slices[i], layout.slices[j]]
                0 <= i && i + 1 == j && j < layout.slices.len()
                    ==> layout.slices[i].content_start_sample
                    < layout.slices[j].content_start_sample
                    <= layout.slices[i].content_end_sample
        },
{
    let made = packed_layout(speech, kind, levels, originals, sample_count, options, ceiling);
    if made is Some {
        let layout = made->Some_0;
        let kept = padded_regions(speech, sample_count, options, ceiling);
        let packing = packing::packed(kept, sample_count, options.seam_samples as int);
        let along = packing::along(originals, packing.anchors);
        let pieces = packing::subdivided(
            packing.processed,
            packing.processed.len() as int,
            levels,
            sample_count,
            along,
            options,
            ceiling,
        );
        let windows = packing::windows_over(pieces, options, ceiling);
        law_padded_regions_fit(speech, sample_count, options, ceiling);
        packing::lemma_processed_ends(
            kept,
            kept.len() as int,
            sample_count,
            options.seam_samples as int,
        );
        packing::law_subdivision_keeps_the_ends(
            packing.processed,
            packing.processed.len() as int,
            levels,
            sample_count,
            along,
            options,
            ceiling,
        );
        packing::law_packed_windows_cover_the_timeline(pieces, options, ceiling);
        assert forall|i: int| 0 <= i < layout.slices.len() implies {
            &&& (#[trigger] layout.slices[i]).content_duration() <= ceiling
            &&& layout.slices[i].duration() <= ceiling
            &&& layout.slices[i].content_start_sample <= layout.slices[i].content_end_sample
            &&& layout.slices[i].content_end_sample <= packing.cursor
        } by {
            assert(windows[i].nonempty() && windows[i].length() <= ceiling);
        }
        assert forall|i: int, j: int|
            #![trigger layout.slices[i], layout.slices[j]]
            0 <= i && i + 1 == j && j
                < layout.slices.len() implies layout.slices[i].content_start_sample
            < layout.slices[j].content_start_sample
            <= layout.slices[i].content_end_sample by {
            assert(windows[i].start_sample < windows[j].start_sample);
        }
    }
}

/// Slices that cover a stretch of the recording make a sound layout.
pub proof fn lemma_covering_slices_are_sound(
    planned: Seq<AudioSlice>,
    kind: AudioSliceKind,
    from: int,
    to: int,
    total: int,
    ceiling: int,
)
    requires
        windows::extends_over(Seq::empty(), planned, kind, from, to, ceiling),
        to <= total,
    ensures
        is_sound(identity_layout(planned), total, ceiling),
{
}

/// Whether sample `at` lies in the content of a slice.
pub open spec fn some_slice_holds(planned: Seq<AudioSlice>, at: int) -> bool {
    exists|i: int|
        0 <= i < planned.len() && (#[trigger] planned[i]).content_start_sample <= at
            < planned[i].content_end_sample
}

/// Voice-activity slices make a sound layout, and every sample of the recording that
/// the detector calls speech lies in a slice.
pub proof fn law_vad_slices_hold_all_speech(
    speech: Seq<LongFormVadSlice>,
    levels: spec_fn(int, int) -> u32,
    sample_count: int,
    options: LongFormOptions,
    ceiling: int,
)
    requires
        0 <= sample_count <= usize::MAX,
        windows::vad_windows_advance(options, ceiling),
    ensures
        ({
            let planned = vad_slices_of_speech(speech, levels, sample_count, options, ceiling);
            &&& is_sound(identity_layout(planned), sample_count, ceiling)
            &&& forall|at: int|
                0 <= at < sample_count && #[trigger] spans::some_holds(speech, at)
                    ==> some_slice_holds(planned, at)
        }),
{
    let limits = region_limits(options, ceiling);
    let regions = speech_regions(speech, sample_count, options, ceiling);
    spans::law_coalescing_keeps_all_speech(speech, limits, sample_count);
    lemma_vad_slices_of_regions(
        regions,
        regions.len() as int,
        levels,
        sample_count,
        options,
        ceiling,
    );
    let planned = vad_slices_of_speech(speech, levels, sample_count, options, ceiling);
    assert forall|at: int|
        0 <= at < sample_count && #[trigger] spans::some_holds(speech, at) implies some_slice_holds(
        planned,
        at,
    ) by {
        assert(spans::some_holds(regions, at));
    }
}

proof fn lemma_vad_slices_of_regions(
    regions: Seq<LongFormVadSlice>,
    count: int,
    levels: spec_fn(int, int) -> u32,
    sample_count: int,
    options: LongFormOptions,
    ceiling: int,
)
    requires
        0 <= count <= regions.len(),
        0 <= sample_count <= usize::MAX,
        spans::all_inside(regions, sample_count),
        windows::vad_windows_advance(options, ceiling),
    ensures
        ({
            let planned = vad_slices_of_regions(
                regions,
                count,
                levels,
                sample_count,
                options,
                ceiling,
            );
            &&& is_sound(identity_layout(planned), sample_count, ceiling)
            &&& forall|at: int|
                (exists|r: int| 0 <= r < count && (#[trigger] regions[r]).holds(at))
                    ==> #[trigger] some_slice_holds(planned, at)
        }),
    decreases count,
{
    let planned = vad_slices_of_regions(regions, count, levels, sample_count, options, ceiling);
    if count > 0 {
        let before = vad_slices_of_regions(
            regions,
            count - 1,
            levels,
            sample_count,
            options,
            ceiling,
        );
        lemma_vad_slices_of_regions(regions, count - 1, levels, sample_count, options, ceiling);
        let region = regions[count - 1];
        assert(region.nonempty());
        windows::law_vad_slices_cover_the_region(
            before,
            levels,
            sample_count,
            region.start_sample as int,
            region.end_sample as int,
            options,
            ceiling,
        );
        assert forall|i: int| 0 <= i < planned.len() implies {
            &&& (#[trigger] planned[i]).content_duration() <= ceiling
            &&& planned[i].content_start_sample <= planned[i].content_end_sample <= sample_count
        } by {
            if i < before.len() {
                assert(planned[i] == before[i]);
                assert(before[i].content_duration() <= ceiling);
            }
        }
        assert forall|at: int|
            (exists|r: int|
                0 <= r < count && (#[trigger] regions[r]).holds(at)) implies #[trigger] some_slice_holds(
            planned,
            at,
        ) by {
            let r = choose|r: int| 0 <= r < count && (#[trigger] regions[r]).holds(at);
            if r == count - 1 {
                let i = windows::lemma_covering_slice(
                    before,
                    planned,
                    AudioSliceKind::Vad,
                    region.start_sample as int,
                    region.end_sample as int,
                    ceiling,
                    at,
                );
                assert(planned[i].content_start_sample <= at);
            } else {
                assert(some_slice_holds(before, at));
                let i = choose|i: int|
                    0 <= i < before.len() && (#[trigger] before[i]).content_start_sample <= at
                        < before[i].content_end_sample;
                assert(planned[i] == before[i]);
            }
        }
    }
}

/// A packed layout keeps every sample of the recording that the detector calls speech.
pub proof fn law_packing_keeps_all_speech(
    speech: Seq<LongFormVadSlice>,
    total: int,
    options: LongFormOptions,
    ceiling: int,
)
    requires
        0 <= total <= usize::MAX,
    ensures
        forall|at: int|
            0 <= at < total && #[trigger] spans::some_holds(speech, at) ==> spans::some_holds(
                padded_regions(speech, total, options, ceiling),
                at,
            ),
{
    let limits = region_limits(options, ceiling);
    let regions = speech_regions(speech, total, options, ceiling);
    let pad = options.padding_samples as int;
    let kept = padded_regions(speech, total, options, ceiling);
    spans::law_coalescing_keeps_all_speech(speech, limits, total);
    spans::law_merging_keeps_and_separates(regions, regions.len() as int, total, pad);
    assert forall|at: int|
        0 <= at < total && #[trigger] spans::some_holds(speech, at) implies spans::some_holds(
        kept,
        at,
    ) by {
        assert(spans::some_holds(regions, at));
        let i = choose|i: int| 0 <= i < regions.len() && (#[trigger] regions[i]).holds(at);
        assert(spans::widened(regions[i], total, pad).holds(at));
    }
}

/// A layout lies on a packed timeline where it says how to make packed audio, or how long it
/// is; slices on the recording's own timeline do not.
pub proof fn law_packed_layouts_are_told_apart(layout: Layout, planned: Seq<AudioSlice>)
    ensures
        !identity_layout(planned).is_packed(),
        identity_layout(planned).slices == planned,
        identity_layout(planned).anchors.len() == 0,
        layout.packed is Some ==> layout.is_packed(),
        layout.processed_audio_samples is Some ==> layout.is_packed(),
        layout.packed is None && layout.processed_audio_samples is None ==> !layout.is_packed(),
{
}

/// What a layout reads of the recording: the spans that were packed, or the fed windows of its
/// slices.
pub proof fn law_layouts_read_what_they_feed(layout: Layout, i: int)
    ensures
        layout.packed matches Some(plan) ==> layout.ranges() == plan.spans,
        layout.packed is None ==> layout.ranges().len() == layout.slices.len(),
        layout.packed is None && 0 <= i < layout.slices.len() ==> layout.ranges()[i].start_sample
            == layout.slices[i].start_sample && layout.ranges()[i].end_sample
            == layout.slices[i].end_sample,
{
}

/// Regions of speech grow up to the ceiling, bridge pauses as configured, and stand alone from
/// the least chunk on.
pub proof fn law_regions_grow_to_the_ceiling(options: LongFormOptions, ceiling: int)
    requires
        0 <= ceiling <= usize::MAX,
    ensures
        region_limits(options, ceiling).target_chunk_samples == ceiling,
        region_limits(options, ceiling).gap_bridge_samples == options.gap_bridge_samples,
        options.min_chunk_samples >= 1 ==> region_limits(options, ceiling).min_chunk_samples
            == options.min_chunk_samples,
        options.min_chunk_samples == 0 ==> region_limits(options, ceiling).min_chunk_samples == 1,
{
}

/// Speech is packed wherever a detector reports at least two spans, something of them is kept,
/// and the packed timeline can be held. What is kept is packed as it is, with the configured
/// seam, and the slices carry the windows over it in order.
pub proof fn law_two_spans_are_packed(
    speech: Seq<LongFormVadSlice>,
    kind: AudioSliceKind,
    levels: spec_fn(int, int) -> u32,
    originals: spec_fn(Seq<TimelineAnchor>, int) -> int,
    sample_count: int,
    options: LongFormOptions,
    ceiling: int,
)
    requires
        0 <= sample_count <= usize::MAX,
        1 <= ceiling <= usize::MAX,
    ensures
        ({
            let made = packed_layout(
                speech,
                kind,
                levels,
                originals,
                sample_count,
                options,
                ceiling,
            );
            let kept = padded_regions(speech, sample_count, options, ceiling);
            let packing = packing::packed(kept, sample_count, options.seam_samples as int);
            let windows = packing::windows_over(
                packing::subdivided(
                    packing.processed,
                    packing.processed.len() as int,
                    levels,
                    sample_count,
                    packing::along(originals, packing.anchors),
                    options,
                    ceiling,
                ),
                options,
                ceiling,
            );
            &&& made is Some <==> speech.len() >= 2 && kept.len() > 0 && packing.cursor
                <= usize::MAX / 2
            &&& made matches Some(layout) ==> {
                &&& layout.packed is Some
                &&& layout.packed->Some_0.spans == kept
                &&& layout.packed->Some_0.seam_samples == options.seam_samples
                &&& layout.packed->Some_0.processed_samples == packing.cursor
                &&& layout.anchors == packing.anchors
                &&& layout.processed_audio_samples is None
                &&& layout.slices.len() == windows.len()
                &&& forall|i: int|
                    0 <= i < windows.len() ==> {
                        &&& (#[trigger] layout.slices[i]).kind == kind
                        &&& layout.slices[i].index == i as usize
                        &&& layout.slices[i].start_sample == windows[i].start_sample
                        &&& layout.slices[i].end_sample == windows[i].end_sample
                        &&& layout.slices[i].content_start_sample == windows[i].start_sample
                        &&& layout.slices[i].content_end_sample == windows[i].end_sample
                    }
            }
        }),
{
    let kept = padded_regions(speech, sample_count, options, ceiling);
    let packing = packing::packed(kept, sample_count, options.seam_samples as int);
    law_padded_regions_fit(speech, sample_count, options, ceiling);
    if kept.len() > 0 && packing.cursor <= usize::MAX / 2 {
        let along = packing::along(originals, packing.anchors);
        packing::lemma_processed_ends(
            kept,
            kept.len() as int,
            sample_count,
            options.seam_samples as int,
        );
        packing::law_subdivision_keeps_the_ends(
            packing.processed,
            packing.processed.len() as int,
            levels,
            sample_count,
            along,
            options,
            ceiling,
        );
        packing::law_packed_windows_cover_the_timeline(
            packing::subdivided(
                packing.processed,
                packing.processed.len() as int,
                levels,
                sample_count,
                along,
                options,
                ceiling,
            ),
            options,
            ceiling,
        );
    } else if kept.len() == 0 {
        packing::law_packed_length(kept, 0, sample_count, options.seam_samples as int);
    }
}

/// What is kept for packing reaches exactly as far round the regions of speech as they are
/// padded, inside the recording.
pub proof fn law_kept_regions_are_padded(
    speech: Seq<LongFormVadSlice>,
    total: int,
    options: LongFormOptions,
    ceiling: int,
    x: int,
)
    requires
        0 <= total <= usize::MAX,
    ensures
        ({
            let regions = speech_regions(speech, total, options, ceiling);
            spans::some_holds(padded_regions(speech, total, options, ceiling), x) <==> 0 <= x
                < total && exists|i: int|
                0 <= i < regions.len() && (#[trigger] regions[i]).start_sample
                    - options.padding_samples <= x < regions[i].end_sample
                    + options.padding_samples
        }),
{
    let limits = region_limits(options, ceiling);
    let regions = speech_regions(speech, total, options, ceiling);
    spans::law_coalescing_keeps_all_speech(speech, limits, total);
    spans::law_merging_keeps_and_separates(
        regions,
        regions.len() as int,
        total,
        options.padding_samples as int,
    );
}

/// Every voice-activity slice lies in a region of speech and ends where a window over that
/// region should.
pub proof fn law_vad_slices_lie_in_regions(
    regions: Seq<LongFormVadSlice>,
    count: int,
    levels: spec_fn(int, int) -> u32,
    sample_count: int,
    options: LongFormOptions,
    ceiling: int,
    i: int,
) -> (r: int)
    requires
        0 <= count <= regions.len(),
        0 <= sample_count <= usize::MAX,
        spans::all_inside(regions, sample_count),
        windows::vad_windows_advance(options, ceiling),
        0 <= i < vad_slices_of_regions(
            regions,
            count,
            levels,
            sample_count,
            options,
            ceiling,
        ).len(),
    ensures
        0 <= r < count,
        ({
            let slice = vad_slices_of_regions(
                regions,
                count,
                levels,
                sample_count,
                options,
                ceiling,
            )[i];
            &&& slice.kind == AudioSliceKind::Vad
            &&& slice.index == i as usize
            &&& regions[r].start_sample <= slice.content_start_sample < slice.content_end_sample
                <= regions[r].end_sample
            &&& windows::ends_at_a_pause(
                levels,
                sample_count,
                slice.content_start_sample as int,
                slice.content_end_sample as int,
                regions[r].end_sample as int,
                options,
                ceiling,
            )
        }),
    decreases count,
{
    let before = vad_slices_of_regions(
        regions,
        count - 1,
        levels,
        sample_count,
        options,
        ceiling,
    );
    let planned = vad_slices_of_regions(regions, count, levels, sample_count, options, ceiling);
    let region = regions[count - 1];
    assert(region.nonempty());
    windows::law_vad_windows_end_at_pauses(
        before,
        levels,
        sample_count,
        region.start_sample as int,
        region.end_sample as int,
        options,
        ceiling,
    );
    windows::law_vad_slices_cover_the_region(
        before,
        levels,
        sample_count,
        region.start_sample as int,
        region.end_sample as int,
        options,
        ceiling,
    );
    if i < before.len() {
        assert(planned[i] == before[i]);
        law_vad_slices_lie_in_regions(
            regions,
            count - 1,
            levels,
            sample_count,
            options,
            ceiling,
            i,
        )
    } else {
        lemma_starts_behind(
            before,
            planned,
            region.start_sample as int,
            region.end_sample as int,
            ceiling,
            i,
        );
        count - 1
    }
}

/// A slice of those that cover a stretch starts no earlier than the stretch.
proof fn lemma_starts_behind(
    before: Seq<AudioSlice>,
    after: Seq<AudioSlice>,
    from: int,
    to: int,
    ceiling: int,
    i: int,
)
    requires
        windows::extends_over(before, after, AudioSliceKind::Vad, from, to, ceiling),
        before.len() <= i < after.len(),
    ensures
        from <= after[i].content_start_sample,
    decreases i,
{
    if i > before.len() {
        lemma_starts_behind(before, after, from, to, ceiling, i - 1);
        assert(after[i - 1].content_start_sample < after[i].content_start_sample);
    }
}

} // verus!
