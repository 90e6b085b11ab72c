//! Long-form slice planning: from a recording to the slices that are decoded.

use vstd::math::*;
use vstd::prelude::*;

use crate::longform::layout;
use crate::longform::layout::{
    layout_from_identity_slices, plan_packed_layout_from_speech_spans,
    plan_vad_slices_from_speech_spans, Layout, LongFormPlanningLayout,
};
use crate::longform::measures::{Acoustics, AudibleWindow, GapEdges, RecordingMeasures};
use crate::longform::options::LongFormOptions;
use crate::longform::packing;
use crate::longform::scoring;
use crate::longform::scoring::{AutoPlanCandidate, Candidate};
use crate::longform::selection;
use crate::longform::selection::{
    apply_marginal_packed_penalties, apply_marginal_vad_penalties,
    apply_material_vad_boundary_credits, auto_selection_provenance, prune_dominated_vad_candidates,
    sort_auto_plan_candidates,
};
use crate::longform::slices;
use crate::longform::slices::{full_slice, AudioSlice, AudioSliceKind, LongFormVadSlice};
use crate::longform::spans;
use crate::longform::timeline::TimelineMap;
use crate::longform::windows;
use crate::longform::windows::{plan_energy_slices, plan_fixed_slices};
use crate::text::append_texts;

verus! {

// ---------------------------------------------------------------------------
// Automatic planning
// ---------------------------------------------------------------------------

/// The slice over a whole recording, alone.
pub open spec fn whole(total: int) -> Seq<AudioSlice> {
    seq![slices::plain_slice(0, AudioSliceKind::Full, 0, total)]
}

/// The energy windows over a whole recording.
pub open spec fn energy_plan(
    acoustics: Acoustics,
    options: LongFormOptions,
    ceiling: int,
) -> Seq<AudioSlice> {
    windows::energy_slices(
        Seq::empty(),
        acoustics.levels,
        acoustics.sample_count,
        0,
        acoustics.sample_count,
        options,
        ceiling,
    )
}

/// The fixed windows over a whole recording.
pub open spec fn fixed_plan(
    acoustics: Acoustics,
    options: LongFormOptions,
    ceiling: int,
) -> Seq<AudioSlice> {
    windows::fixed_slices(Seq::empty(), 0, acoustics.sample_count, options, ceiling)
}

/// The candidates with one more layout, scored, if there is one.
pub open spec fn with_layout(
    candidates: Seq<Candidate>,
    kind: AudioSliceKind,
    made: Option<Layout>,
    options: LongFormOptions,
    ceiling: int,
    acoustics: Acoustics,
) -> Seq<Candidate> {
    match made {
        Some(layout) => candidates.push(
            scoring::scored(kind, layout, options, ceiling, acoustics),
        ),
        None => candidates,
    }
}

/// Slices on the recording's own timeline, if there are any.
pub open spec fn if_any(planned: Seq<AudioSlice>) -> Option<Layout> {
    if planned.len() == 0 {
        None
    } else {
        Some(layout::identity_layout(planned))
    }
}

/// The candidates with the energy windows over the recording.
pub open spec fn with_energy_windows(
    candidates: Seq<Candidate>,
    options: LongFormOptions,
    ceiling: int,
    acoustics: Acoustics,
) -> Seq<Candidate> {
    with_layout(
        candidates,
        AudioSliceKind::Energy,
        Some(layout::identity_layout(energy_plan(acoustics, options, ceiling))),
        options,
        ceiling,
        acoustics,
    )
}

/// The candidates with what a detector calls speech, packed.
pub open spec fn with_packed_speech(
    candidates: Seq<Candidate>,
    kind: AudioSliceKind,
    speech: Seq<LongFormVadSlice>,
    options: LongFormOptions,
    ceiling: int,
    acoustics: Acoustics,
) -> Seq<Candidate> {
    with_layout(
        candidates,
        kind,
        layout::packed_layout(
            speech,
            kind,
            acoustics.levels,
            acoustics.originals,
            acoustics.sample_count,
            options,
            ceiling,
        ),
        options,
        ceiling,
        acoustics,
    )
}

/// The candidates with the fixed windows over the recording.
pub open spec fn with_fixed_windows(
    candidates: Seq<Candidate>,
    options: LongFormOptions,
    ceiling: int,
    acoustics: Acoustics,
) -> Seq<Candidate> {
    with_layout(
        candidates,
        AudioSliceKind::Fixed,
        if_any(fixed_plan(acoustics, options, ceiling)),
        options,
        ceiling,
        acoustics,
    )
}

/// The candidates with what a detector calls speech, in place.
pub open spec fn with_speech_in_place(
    candidates: Seq<Candidate>,
    speech: Seq<LongFormVadSlice>,
    options: LongFormOptions,
    ceiling: int,
    acoustics: Acoustics,
) -> Seq<Candidate> {
    with_layout(
        candidates,
        AudioSliceKind::Vad,
        if_any(
            layout::vad_slices_of_speech(
                speech,
                acoustics.levels,
                acoustics.sample_count,
                options,
                ceiling,
            ),
        ),
        options,
        ceiling,
        acoustics,
    )
}

/// The candidates of automatic planning: the energy windows, what the energy detector
/// calls speech packed, the fixed windows, and what a further detector calls speech
/// packed and in place.
pub open spec fn auto_candidates(
    energy_speech: Seq<LongFormVadSlice>,
    vad_speech: Option<Seq<LongFormVadSlice>>,
    options: LongFormOptions,
    ceiling: int,
    acoustics: Acoustics,
) -> Seq<Candidate> {
    let energy = with_energy_windows(Seq::empty(), options, ceiling, acoustics);
    let packed = with_packed_speech(
        energy,
        AudioSliceKind::Energy,
        energy_speech,
        options,
        ceiling,
        acoustics,
    );
    let fixed = with_fixed_windows(packed, options, ceiling, acoustics);
    match vad_speech {
        None => fixed,
        Some(speech) => with_speech_in_place(
            with_packed_speech(fixed, AudioSliceKind::Vad, speech, options, ceiling, acoustics),
            speech,
            options,
            ceiling,
            acoustics,
        ),
    }
}

/// The layout that is chosen among candidates, with the report on the choice: what is
/// dominated goes, what drops audible content goes where something else does not,
/// marginal savings are charged and better boundaries rewarded, and the best of the rest
/// is taken.
pub open spec fn chosen(
    candidates: Seq<Candidate>,
    rate: int,
    options: LongFormOptions,
    acoustics: Acoustics,
) -> Layout {
    let total = acoustics.sample_count;
    let undominated = selection::pruned(candidates);
    let covering = selection::covering(undominated, acoustics);
    let packed_charged = selection::after_packed_penalties(covering, total, options);
    let charged = selection::after_vad_penalties(packed_charged, total, options);
    let rewarded = selection::after_credits(charged, rate, options);
    let sorted = selection::in_preference(rewarded);
    if sorted.len() == 0 {
        layout::identity_layout(whole(total))
    } else {
        Layout {
            provenance: selection::coverage_report(undominated, acoustics)
                + selection::packed_penalty_report(
                covering,
                covering.len() as int,
                total,
                options,
            ) + selection::vad_penalty_report(
                packed_charged,
                packed_charged.len() as int,
                total,
                options,
            ) + selection::credit_report(charged, charged.len() as int, rate, options)
                + selection::selection_report(sorted),
            ..sorted[0].layout
        }
    }
}

/// The layout of automatic planning, for what the detectors call speech.
pub open spec fn auto_layout(
    energy_speech: Seq<LongFormVadSlice>,
    vad_speech: Option<Seq<LongFormVadSlice>>,
    rate: int,
    options: LongFormOptions,
    ceiling: int,
    acoustics: Acoustics,
) -> Layout {
    chosen(
        auto_candidates(energy_speech, vad_speech, options, ceiling, acoustics),
        rate,
        options,
        acoustics,
    )
}

/// The slices of voice-activity planning, for what the detector calls speech.
pub open spec fn vad_plan(
    speech: Seq<LongFormVadSlice>,
    options: LongFormOptions,
    ceiling: int,
    acoustics: Acoustics,
) -> Seq<AudioSlice> {
    let planned = layout::vad_slices_of_speech(
        speech,
        acoustics.levels,
        acoustics.sample_count,
        options,
        ceiling,
    );
    if planned.len() == 0 && options.fallback_to_energy_when_vad_empty {
        energy_plan(acoustics, options, ceiling)
    } else {
        planned
    }
}

/// Settings under which automatic planning moves forward.
pub open spec fn auto_advances(options: LongFormOptions, ceiling: int) -> bool {
    &&& windows::energy_windows_advance(options, ceiling)
    &&& windows::vad_windows_advance(options, ceiling)
}

/// Settings under which voice-activity planning moves forward.
pub open spec fn vad_advances(options: LongFormOptions, ceiling: int) -> bool {
    &&& windows::vad_windows_advance(options, ceiling)
    &&& options.fallback_to_energy_when_vad_empty
        || options.fallback_to_energy_when_vad_unavailable ==> windows::energy_windows_advance(
        options,
        ceiling,
    )
}

impl<
    L: Fn(usize, usize) -> u32,
    O: Fn(&TimelineMap, usize) -> usize,
    B: Fn(usize, usize, usize) -> usize,
    E: Fn(&Vec<LongFormVadSlice>, usize, usize) -> usize,
    G: Fn(&Vec<LongFormVadSlice>, GapEdges, usize) -> usize,
    A: Fn(&Vec<LongFormVadSlice>, usize, usize) -> Option<AudibleWindow>,
    D: Fn(&Vec<LongFormVadSlice>, &Vec<LongFormVadSlice>, AudibleWindow) -> String,
> RecordingMeasures<L, O, B, E, G, A, D> {
    fn push_layout(
        &self,
        candidates: &mut Vec<AutoPlanCandidate>,
        kind: AudioSliceKind,
        made: Option<LongFormPlanningLayout>,
        sample_rate_hz: u32,
        options: &LongFormOptions,
    )
        requires
            self.answers(),
            options.has_ceiling(sample_rate_hz),
        ensures
            selection::values(final(candidates)@) == with_layout(
                selection::values(old(candidates)@),
                kind,
                match made {
                    Some(layout) => Some(layout@),
                    None => None,
                },
                *options,
                options.ceiling(sample_rate_hz),
                self.acoustics(),
            ),
    {
        if let Some(layout) = made {
            let ghost before = selection::values(candidates@);
            let candidate: AutoPlanCandidate = self.build_auto_plan_candidate(
                kind,
                layout,
                sample_rate_hz,
                options,
            );
            let ghost value = candidate@;
            candidates.push(candidate);
            assert(selection::values(candidates@) =~= before.push(value));
        }
    }

    /// Adds the energy windows over the recording.
    pub(crate) fn push_energy_windows(
        &self,
        candidates: &mut Vec<AutoPlanCandidate>,
        sample_rate_hz: u32,
        options: &LongFormOptions,
    )
        requires
            self.answers(),
            options.has_ceiling(sample_rate_hz),
            auto_advances(*options, options.ceiling(sample_rate_hz)),
        ensures
            selection::values(final(candidates)@) == with_energy_windows(
                selection::values(old(candidates)@),
                *options,
                options.ceiling(sample_rate_hz),
                self.acoustics(),
            ),
    {
        let planned: Vec<AudioSlice> = plan_energy_slices(
            &self.meter,
            self.sample_count,
            sample_rate_hz,
            options,
        );
        self.push_layout(
            candidates,
            AudioSliceKind::Energy,
            Some(layout_from_identity_slices(planned)),
            sample_rate_hz,
            options,
        );
    }

    /// Adds what a detector calls speech, packed.
    pub(crate) fn push_packed_speech(
        &self,
        candidates: &mut Vec<AutoPlanCandidate>,
        kind: AudioSliceKind,
        speech: Vec<LongFormVadSlice>,
        sample_rate_hz: u32,
        options: &LongFormOptions,
    )
        requires
            self.answers(),
            options.has_ceiling(sample_rate_hz),
            auto_advances(*options, options.ceiling(sample_rate_hz)),
        ensures
            selection::values(final(candidates)@) == with_packed_speech(
                selection::values(old(candidates)@),
                kind,
                speech@,
                *options,
                options.ceiling(sample_rate_hz),
                self.acoustics(),
            ),
    {
        let packed: Option<LongFormPlanningLayout> = plan_packed_layout_from_speech_spans(
            &self.meter,
            &self.mapper,
            self.sample_count,
            sample_rate_hz,
            options,
            kind,
            speech,
        );
        self.push_layout(candidates, kind, packed, sample_rate_hz, options);
    }

    /// Adds the fixed windows over the recording.
    pub(crate) fn push_fixed_windows(
        &self,
        candidates: &mut Vec<AutoPlanCandidate>,
        sample_rate_hz: u32,
        options: &LongFormOptions,
    )
        requires
            self.answers(),
            options.has_ceiling(sample_rate_hz),
        ensures
            selection::values(final(candidates)@) == with_fixed_windows(
                selection::values(old(candidates)@),
                *options,
                options.ceiling(sample_rate_hz),
                self.acoustics(),
            ),
    {
        let planned: Vec<AudioSlice> = plan_fixed_slices(
            self.sample_count,
            sample_rate_hz,
            options,
        );
        self.push_layout(
            candidates,
            AudioSliceKind::Fixed,
            layout_if_any(planned),
            sample_rate_hz,
            options,
        );
    }

    /// Adds what a detector calls speech, in place.
    pub(crate) fn push_speech_in_place(
        &self,
        candidates: &mut Vec<AutoPlanCandidate>,
        speech: Vec<LongFormVadSlice>,
        sample_rate_hz: u32,
        options: &LongFormOptions,
    )
        requires
            self.answers(),
            options.has_ceiling(sample_rate_hz),
            auto_advances(*options, options.ceiling(sample_rate_hz)),
        ensures
            selection::values(final(candidates)@) == with_speech_in_place(
                selection::values(old(candidates)@),
                speech@,
                *options,
                options.ceiling(sample_rate_hz),
                self.acoustics(),
            ),
    {
        let planned: Vec<AudioSlice> = plan_vad_slices_from_speech_spans(
            &self.meter,
            self.sample_count,
            sample_rate_hz,
            options,
            speech,
        );
        self.push_layout(
            candidates,
            AudioSliceKind::Vad,
            layout_if_any(planned),
            sample_rate_hz,
            options,
        );
    }

    /// Builds the candidates for what the detectors call speech.
    pub fn build_auto_candidates(
        &self,
        energy_speech: Vec<LongFormVadSlice>,
        vad_speech: Option<Vec<LongFormVadSlice>>,
        sample_rate_hz: u32,
        options: &LongFormOptions,
    ) -> (candidates: Vec<AutoPlanCandidate>)
        requires
            self.answers(),
            options.has_ceiling(sample_rate_hz),
            auto_advances(*options, options.ceiling(sample_rate_hz)),
        ensures
            selection::values(candidates@) == auto_candidates(
                energy_speech@,
                match vad_speech {
                    Some(speech) => Some(speech@),
                    None => None,
                },
                *options,
                options.ceiling(sample_rate_hz),
                self.acoustics(),
            ),
    {
        let mut candidates: Vec<AutoPlanCandidate> = Vec::new();
        assert(selection::values(candidates@) =~= Seq::empty());
        self.push_energy_windows(&mut candidates, sample_rate_hz, options);
        self.push_packed_speech(
            &mut candidates,
            AudioSliceKind::Energy,
            energy_speech,
            sample_rate_hz,
            options,
        );
        self.push_fixed_windows(&mut candidates, sample_rate_hz, options);
        if let Some(speech) = vad_speech {
            let again: Vec<LongFormVadSlice> = packing::copied(&speech);
            self.push_packed_speech(
                &mut candidates,
                AudioSliceKind::Vad,
                again,
                sample_rate_hz,
                options,
            );
            self.push_speech_in_place(&mut candidates, speech, sample_rate_hz, options);
        }
        candidates
    }

    /// Chooses among candidates.
    pub fn choose_auto_layout(
        &self,
        candidates: Vec<AutoPlanCandidate>,
        sample_rate_hz: u32,
        options: &LongFormOptions,
    ) -> (layout: LongFormPlanningLayout)
        requires
            self.answers(),
        ensures
            layout@ == chosen(
                selection::values(candidates@),
                sample_rate_hz as int,
                *options,
                self.acoustics(),
            ),
    {
        let total_samples: usize = self.sample_count;
        let undominated: Vec<AutoPlanCandidate> = prune_dominated_vad_candidates(candidates);
        let (mut left, mut provenance) = self.enforce_coverage_dominance(undominated);
        append_texts(
            &mut provenance,
            apply_marginal_packed_penalties(&mut left, total_samples, options),
        );
        append_texts(
            &mut provenance,
            apply_marginal_vad_penalties(&mut left, total_samples, options),
        );
        append_texts(
            &mut provenance,
            apply_material_vad_boundary_credits(&mut left, sample_rate_hz, options),
        );
        let sorted: Vec<AutoPlanCandidate> = sort_auto_plan_candidates(left);
        append_texts(&mut provenance, auto_selection_provenance(&sorted));
        if sorted.len() == 0 {
            let mut only: Vec<AudioSlice> = Vec::new();
            only.push(full_slice(total_samples));
            assert(only@ =~= whole(total_samples as int));
            return layout_from_identity_slices(only);
        }
        let ghost best = sorted@[0]@;
        assert(best == selection::values(sorted@)[0]);
        let mut sorted = sorted;
        let best_candidate: AutoPlanCandidate = sorted.remove(0);
        let mut layout: LongFormPlanningLayout = best_candidate.layout;
        layout.selection_provenance = provenance;
        layout
    }

    /// Automatic planning for what the detectors call speech.
    pub fn auto_layout_from_speech(
        &self,
        energy_speech: Vec<LongFormVadSlice>,
        vad_speech: Option<Vec<LongFormVadSlice>>,
        sample_rate_hz: u32,
        options: &LongFormOptions,
    ) -> (layout: LongFormPlanningLayout)
        requires
            self.answers(),
            options.has_ceiling(sample_rate_hz),
            auto_advances(*options, options.ceiling(sample_rate_hz)),
        ensures
            layout@ == auto_layout(
                energy_speech@,
                match vad_speech {
                    Some(speech) => Some(speech@),
                    None => None,
                },
                sample_rate_hz as int,
                *options,
                options.ceiling(sample_rate_hz),
                self.acoustics(),
            ),
    {
        let candidates: Vec<AutoPlanCandidate> = self.build_auto_candidates(
            energy_speech,
            vad_speech,
            sample_rate_hz,
            options,
        );
        self.choose_auto_layout(candidates, sample_rate_hz, options)
    }
}

fn layout_if_any(planned: Vec<AudioSlice>) -> (layout: Option<LongFormPlanningLayout>)
    ensures
        match layout {
            Some(made) => if_any(planned@) == Some(made@),
            None => if_any(planned@) is None,
        },
{
    if planned.len() == 0 {
        None
    } else {
        Some(layout_from_identity_slices(planned))
    }
}

// ---------------------------------------------------------------------------
// What every chosen layout keeps to
// ---------------------------------------------------------------------------

/// Whether every candidate's layout can be decoded.
pub open spec fn all_sound(candidates: Seq<Candidate>, total: int, ceiling: int) -> bool {
    forall|i: int|
        0 <= i < candidates.len() ==> layout::is_sound(
            (#[trigger] candidates[i]).layout,
            total,
            ceiling,
        )
}

/// Energy windows make a sound layout.
pub proof fn lemma_energy_plan_is_sound(acoustics: Acoustics, options: LongFormOptions, ceiling: int)
    requires
        0 <= acoustics.sample_count <= usize::MAX,
        windows::energy_windows_advance(options, ceiling),
    ensures
        layout::is_sound(
            layout::identity_layout(energy_plan(acoustics, options, ceiling)),
            acoustics.sample_count,
            ceiling,
        ),
{
    if acoustics.sample_count > 0 {
        windows::law_energy_slices_cover_the_stretch(
            Seq::empty(),
            acoustics.levels,
            acoustics.sample_count,
            0,
            acoustics.sample_count,
            options,
            ceiling,
        );
        layout::lemma_covering_slices_are_sound(
            energy_plan(acoustics, options, ceiling),
            AudioSliceKind::Energy,
            0,
            acoustics.sample_count,
            acoustics.sample_count,
            ceiling,
        );
    }
}

/// Fixed windows make a sound layout.
pub proof fn lemma_fixed_plan_is_sound(acoustics: Acoustics, options: LongFormOptions, ceiling: int)
    requires
        0 <= acoustics.sample_count <= usize::MAX,
        ceiling >= 1,
    ensures
        layout::is_sound(
            layout::identity_layout(fixed_plan(acoustics, options, ceiling)),
            acoustics.sample_count,
            ceiling,
        ),
{
    if acoustics.sample_count > 0 && options.chunk_samples >= 1 {
        windows::law_fixed_slices_cover_the_recording(acoustics.sample_count, options, ceiling);
        layout::lemma_covering_slices_are_sound(
            fixed_plan(acoustics, options, ceiling),
            AudioSliceKind::Fixed,
            0,
            acoustics.sample_count,
            acoustics.sample_count,
            ceiling,
        );
    }
}

proof fn lemma_auto_candidates_are_sound(
    energy_speech: Seq<LongFormVadSlice>,
    vad_speech: Option<Seq<LongFormVadSlice>>,
    options: LongFormOptions,
    ceiling: int,
    acoustics: Acoustics,
)
    requires
        0 <= acoustics.sample_count <= usize::MAX,
        1 <= ceiling <= usize::MAX,
        auto_advances(options, ceiling),
    ensures
        all_sound(
            auto_candidates(energy_speech, vad_speech, options, ceiling, acoustics),
            acoustics.sample_count,
            ceiling,
        ),
        auto_candidates(energy_speech, vad_speech, options, ceiling, acoustics).len() > 0,
        auto_candidates(energy_speech, vad_speech, options, ceiling, acoustics)[0].kind
            == AudioSliceKind::Energy,
        auto_candidates(energy_speech, vad_speech, options, ceiling, acoustics)[0].layout
            == layout::identity_layout(energy_plan(acoustics, options, ceiling)),
{
    lemma_energy_plan_is_sound(acoustics, options, ceiling);
    lemma_fixed_plan_is_sound(acoustics, options, ceiling);
    layout::law_packed_layout_is_sound(
        energy_speech,
        AudioSliceKind::Energy,
        acoustics.levels,
        acoustics.originals,
        acoustics.sample_count,
        options,
        ceiling,
    );
    if let Some(speech) = vad_speech {
        layout::law_packed_layout_is_sound(
            speech,
            AudioSliceKind::Vad,
            acoustics.levels,
            acoustics.originals,
            acoustics.sample_count,
            options,
            ceiling,
        );
        layout::law_vad_slices_hold_all_speech(
            speech,
            acoustics.levels,
            acoustics.sample_count,
            options,
            ceiling,
        );
    }
}

/// Choosing among sound candidates, one of them not from voice activity, gives a sound
/// layout.
pub proof fn law_the_choice_is_sound(
    candidates: Seq<Candidate>,
    rate: int,
    options: LongFormOptions,
    ceiling: int,
    acoustics: Acoustics,
)
    requires
        all_sound(candidates, acoustics.sample_count, ceiling),
        exists|i: int|
            0 <= i < candidates.len() && (#[trigger] candidates[i]).kind != AudioSliceKind::Vad,
    ensures
        layout::is_sound(
            chosen(candidates, rate, options, acoustics),
            acoustics.sample_count,
            ceiling,
        ),
{
    let total = acoustics.sample_count;
    let undominated = selection::pruned(candidates);
    let covering = selection::covering(undominated, acoustics);
    let packed_charged = selection::after_packed_penalties(covering, total, options);
    let charged = selection::after_vad_penalties(packed_charged, total, options);
    let rewarded = selection::after_credits(charged, rate, options);
    let sorted = selection::in_preference(rewarded);
    let k = choose|k: int|
        0 <= k < candidates.len() && (#[trigger] candidates[k]).kind != AudioSliceKind::Vad;
    assert(candidates.contains(candidates[k]));
    selection::law_pruning_keeps_the_undominated(candidates, candidates[k]);
    assert(undominated.len() > 0);
    assert forall|i: int| 0 <= i < undominated.len() implies layout::is_sound(
        (#[trigger] undominated[i]).layout,
        total,
        ceiling,
    ) by {
        assert(undominated.contains(undominated[i]));
        selection::law_pruning_keeps_the_undominated(candidates, undominated[i]);
    }
    selection::law_coverage_rule(undominated, acoustics, undominated[0]);
    assert forall|i: int| 0 <= i < covering.len() implies layout::is_sound(
        (#[trigger] covering[i]).layout,
        total,
        ceiling,
    ) by {
        assert(covering.contains(covering[i]));
        selection::law_coverage_rule(undominated, acoustics, covering[i]);
    }
    assert forall|i: int| 0 <= i < rewarded.len() implies layout::is_sound(
        (#[trigger] rewarded[i]).layout,
        total,
        ceiling,
    ) by {
        assert(rewarded[i].layout == charged[i].layout);
        assert(charged[i].layout == packed_charged[i].layout);
        assert(packed_charged[i].layout == covering[i].layout);
    }
    selection::law_selection_is_the_best(rewarded);
}

/// Automatic planning gives a sound layout, whatever the detectors call speech.
pub proof fn law_auto_layout_is_sound(
    energy_speech: Seq<LongFormVadSlice>,
    vad_speech: Option<Seq<LongFormVadSlice>>,
    rate: int,
    options: LongFormOptions,
    ceiling: int,
    acoustics: Acoustics,
)
    requires
        0 <= acoustics.sample_count <= usize::MAX,
        1 <= ceiling <= usize::MAX,
        auto_advances(options, ceiling),
    ensures
        layout::is_sound(
            auto_layout(energy_speech, vad_speech, rate, options, ceiling, acoustics),
            acoustics.sample_count,
            ceiling,
        ),
{
    let candidates = auto_candidates(energy_speech, vad_speech, options, ceiling, acoustics);
    lemma_auto_candidates_are_sound(energy_speech, vad_speech, options, ceiling, acoustics);
    assert(candidates[0].kind != AudioSliceKind::Vad);
    law_the_choice_is_sound(candidates, rate, options, ceiling, acoustics);
}

/// Voice-activity planning gives a sound layout, whatever the detector calls speech.
pub proof fn law_vad_plan_is_sound(
    speech: Seq<LongFormVadSlice>,
    options: LongFormOptions,
    ceiling: int,
    acoustics: Acoustics,
)
    requires
        0 <= acoustics.sample_count <= usize::MAX,
        vad_advances(options, ceiling),
    ensures
        layout::is_sound(
            layout::identity_layout(vad_plan(speech, options, ceiling, acoustics)),
            acoustics.sample_count,
            ceiling,
        ),
{
    layout::law_vad_slices_hold_all_speech(
        speech,
        acoustics.levels,
        acoustics.sample_count,
        options,
        ceiling,
    );
    if options.fallback_to_energy_when_vad_empty {
        lemma_energy_plan_is_sound(acoustics, options, ceiling);
    }
}

/// Whether nothing audible is ever found in an empty range.
pub open spec fn empty_is_inaudible(acoustics: Acoustics) -> bool {
    forall|kept: Seq<LongFormVadSlice>, at: int|
        #[trigger] (acoustics.audible)(kept, at, at) is None
}

proof fn lemma_nothing_audible_in_empty_ranges(
    kept: Seq<LongFormVadSlice>,
    dropped: Seq<LongFormVadSlice>,
    at: int,
    acoustics: Acoustics,
)
    requires
        empty_is_inaudible(acoustics),
        forall|i: int|
            0 <= i < dropped.len() ==> (#[trigger] dropped[i]).start_sample
                == dropped[i].end_sample,
        0 <= at,
    ensures
        selection::first_audible(kept, dropped, at, acoustics) is None,
    decreases dropped.len() - at,
{
    if at < dropped.len() {
        assert(dropped[at].start_sample == dropped[at].end_sample);
        lemma_nothing_audible_in_empty_ranges(kept, dropped, at + 1, acoustics);
    }
}

/// The energy windows over a recording drop none of it.
pub proof fn law_energy_plan_drops_nothing(
    acoustics: Acoustics,
    options: LongFormOptions,
    ceiling: int,
)
    requires
        0 <= acoustics.sample_count <= usize::MAX,
        windows::energy_windows_advance(options, ceiling),
    ensures
        ({
            let dropped = layout::identity_layout(
                energy_plan(acoustics, options, ceiling),
            ).dropped(acoustics.sample_count);
            forall|i: int|
                0 <= i < dropped.len() ==> (#[trigger] dropped[i]).start_sample
                    == dropped[i].end_sample
        }),
{
    let total = acoustics.sample_count;
    let planned = energy_plan(acoustics, options, ceiling);
    let ranges = layout::identity_layout(planned).ranges();
    let dropped = layout::identity_layout(planned).dropped(total);
    spans::lemma_dropped_ranges_are_ranges(ranges, total);
    if total > 0 {
        windows::law_energy_slices_cover_the_stretch(
            Seq::empty(),
            acoustics.levels,
            total,
            0,
            total,
            options,
            ceiling,
        );
        windows::lemma_energy_slices_are_plain(
            Seq::empty(),
            acoustics.levels,
            total,
            0,
            total,
            options,
            ceiling,
        );
    }
    assert forall|i: int| 0 <= i < dropped.len() implies (#[trigger] dropped[i]).start_sample
        == dropped[i].end_sample by {
        if dropped[i].start_sample < dropped[i].end_sample {
            let x = dropped[i].start_sample as int;
            assert(dropped[i].holds(x));
            spans::law_kept_and_dropped_split_the_recording(ranges, total, x);
            let k = windows::lemma_covering_slice(
                Seq::empty(),
                planned,
                AudioSliceKind::Energy,
                0,
                total,
                ceiling,
                x,
            );
            assert(ranges[k].holds(x));
        }
    }
}

/// What a layout keeps and drops does not depend on what is reported of it.
proof fn lemma_report_changes_no_range(layout: Layout, provenance: Seq<Seq<char>>)
    ensures
        (Layout { provenance, ..layout }).ranges() == layout.ranges(),
{
    assert((Layout { provenance, ..layout }).ranges() =~= layout.ranges());
}

/// Choosing among candidates, one of which is not from voice activity and drops nothing
/// audible, gives a layout that drops nothing audible.
pub proof fn law_the_choice_drops_nothing_audible(
    candidates: Seq<Candidate>,
    safe: Candidate,
    rate: int,
    options: LongFormOptions,
    acoustics: Acoustics,
)
    requires
        candidates.contains(safe),
        safe.kind != AudioSliceKind::Vad,
        selection::audible_drop(safe, acoustics) is None,
        acoustics.sample_count > 0,
    ensures
        ({
            let layout = chosen(candidates, rate, options, acoustics);
            selection::first_audible(
                layout.kept(acoustics.sample_count),
                layout.dropped(acoustics.sample_count),
                0,
                acoustics,
            ) is None
        }),
{
    let total = acoustics.sample_count;
    let undominated = selection::pruned(candidates);
    let covering = selection::covering(undominated, acoustics);
    let packed_charged = selection::after_packed_penalties(covering, total, options);
    let charged = selection::after_vad_penalties(packed_charged, total, options);
    let rewarded = selection::after_credits(charged, rate, options);
    let sorted = selection::in_preference(rewarded);
    selection::law_pruning_keeps_the_undominated(candidates, safe);
    let e = choose|e: int| 0 <= e < undominated.len() && undominated[e] == safe;
    assert(selection::audible_drop(undominated[e], acoustics) is None);
    selection::law_coverage_rule(undominated, acoustics, safe);
    assert forall|i: int| 0 <= i < covering.len() implies selection::audible_drop(
        #[trigger] covering[i],
        acoustics,
    ) is None by {
        assert(covering.contains(covering[i]));
        selection::law_coverage_rule(undominated, acoustics, covering[i]);
        if undominated.len() == 1 {
            assert(covering[i] == safe);
        }
    }
    selection::law_selection_is_the_best(rewarded);
    let best = sorted[0];
    let b = choose|b: int| 0 <= b < rewarded.len() && rewarded[b] == best;
    assert(rewarded[b].layout == covering[b].layout) by {
        assert(rewarded[b].layout == charged[b].layout);
        assert(charged[b].layout == packed_charged[b].layout);
        assert(packed_charged[b].layout == covering[b].layout);
    }
    assert(selection::audible_drop(covering[b], acoustics) is None);
    let layout = chosen(candidates, rate, options, acoustics);
    lemma_report_changes_no_range(best.layout, layout.provenance);
}

/// Automatic planning never drops anything audible, whatever the detectors call speech.
pub proof fn law_auto_layout_drops_nothing_audible(
    energy_speech: Seq<LongFormVadSlice>,
    vad_speech: Option<Seq<LongFormVadSlice>>,
    rate: int,
    options: LongFormOptions,
    ceiling: int,
    acoustics: Acoustics,
)
    requires
        0 < acoustics.sample_count <= usize::MAX,
        1 <= ceiling <= usize::MAX,
        auto_advances(options, ceiling),
        empty_is_inaudible(acoustics),
    ensures
        ({
            let layout = auto_layout(
                energy_speech,
                vad_speech,
                rate,
                options,
                ceiling,
                acoustics,
            );
            selection::first_audible(
                layout.kept(acoustics.sample_count),
                layout.dropped(acoustics.sample_count),
                0,
                acoustics,
            ) is None
        }),
{
    let total = acoustics.sample_count;
    let candidates = auto_candidates(energy_speech, vad_speech, options, ceiling, acoustics);
    let energy = candidates[0];
    lemma_auto_candidates_are_sound(energy_speech, vad_speech, options, ceiling, acoustics);
    law_energy_plan_drops_nothing(acoustics, options, ceiling);
    lemma_nothing_audible_in_empty_ranges(
        energy.layout.kept(total),
        energy.layout.dropped(total),
        0,
        acoustics,
    );
    law_the_choice_drops_nothing_audible(candidates, energy, rate, options, acoustics);
}

// ---------------------------------------------------------------------------
// What automatic planning chooses among, and what it takes
// ---------------------------------------------------------------------------

/// Every way to cut a recording is tried: the energy windows, what the energy detector calls
/// speech packed, the fixed windows, and what a further detector calls speech both packed and
/// in place, wherever it makes a plan at all. Nothing else is a candidate.
pub proof fn law_every_way_is_tried(
    energy_speech: Seq<LongFormVadSlice>,
    vad_speech: Option<Seq<LongFormVadSlice>>,
    options: LongFormOptions,
    ceiling: int,
    acoustics: Acoustics,
    c: Candidate,
)
    ensures
        auto_candidates(energy_speech, vad_speech, options, ceiling, acoustics).contains(c) <==> {
            ||| c == scoring::scored(
                AudioSliceKind::Energy,
                layout::identity_layout(
                    windows::energy_slices(
                        Seq::empty(),
                        acoustics.levels,
                        acoustics.sample_count,
                        0,
                        acoustics.sample_count,
                        options,
                        ceiling,
                    ),
                ),
                options,
                ceiling,
                acoustics,
            )
            ||| layout::packed_layout(
                energy_speech,
                AudioSliceKind::Energy,
                acoustics.levels,
                acoustics.originals,
                acoustics.sample_count,
                options,
                ceiling,
            ) matches Some(made) && c == scoring::scored(
                AudioSliceKind::Energy,
                made,
                options,
                ceiling,
                acoustics,
            )
            ||| ({
                let fixed = windows::fixed_slices(
                    Seq::empty(),
                    0,
                    acoustics.sample_count,
                    options,
                    ceiling,
                );
                fixed.len() > 0 && c == scoring::scored(
                    AudioSliceKind::Fixed,
                    layout::identity_layout(fixed),
                    options,
                    ceiling,
                    acoustics,
                )
            })
            ||| vad_speech is Some && (layout::packed_layout(
                vad_speech->Some_0,
                AudioSliceKind::Vad,
                acoustics.levels,
                acoustics.originals,
                acoustics.sample_count,
                options,
                ceiling,
            ) matches Some(made) && c == scoring::scored(
                AudioSliceKind::Vad,
                made,
                options,
                ceiling,
                acoustics,
            ))
            ||| vad_speech is Some && ({
                let in_place = layout::vad_slices_of_speech(
                    vad_speech->Some_0,
                    acoustics.levels,
                    acoustics.sample_count,
                    options,
                    ceiling,
                );
                in_place.len() > 0 && c == scoring::scored(
                    AudioSliceKind::Vad,
                    layout::identity_layout(in_place),
                    options,
                    ceiling,
                    acoustics,
                )
            })
        },
{
    let energy = with_energy_windows(Seq::empty(), options, ceiling, acoustics);
    let packed = with_packed_speech(
        energy,
        AudioSliceKind::Energy,
        energy_speech,
        options,
        ceiling,
        acoustics,
    );
    let fixed = with_fixed_windows(packed, options, ceiling, acoustics);
    let energy_layout = Some(layout::identity_layout(energy_plan(acoustics, options, ceiling)));
    lemma_with_layout(
        Seq::empty(),
        AudioSliceKind::Energy,
        energy_layout,
        options,
        ceiling,
        acoustics,
        c,
    );
    assert(!Seq::<Candidate>::empty().contains(c));
    lemma_with_layout(
        energy,
        AudioSliceKind::Energy,
        layout::packed_layout(
            energy_speech,
            AudioSliceKind::Energy,
            acoustics.levels,
            acoustics.originals,
            acoustics.sample_count,
            options,
            ceiling,
        ),
        options,
        ceiling,
        acoustics,
        c,
    );
    lemma_with_layout(
        packed,
        AudioSliceKind::Fixed,
        if_any(fixed_plan(acoustics, options, ceiling)),
        options,
        ceiling,
        acoustics,
        c,
    );
    if let Some(speech) = vad_speech {
        let both = with_packed_speech(
            fixed,
            AudioSliceKind::Vad,
            speech,
            options,
            ceiling,
            acoustics,
        );
        lemma_with_layout(
            fixed,
            AudioSliceKind::Vad,
            layout::packed_layout(
                speech,
                AudioSliceKind::Vad,
                acoustics.levels,
                acoustics.originals,
                acoustics.sample_count,
                options,
                ceiling,
            ),
            options,
            ceiling,
            acoustics,
            c,
        );
        lemma_with_layout(
            both,
            AudioSliceKind::Vad,
            if_any(
                layout::vad_slices_of_speech(
                    speech,
                    acoustics.levels,
                    acoustics.sample_count,
                    options,
                    ceiling,
                ),
            ),
            options,
            ceiling,
            acoustics,
            c,
        );
    }
}

proof fn lemma_with_layout(
    candidates: Seq<Candidate>,
    kind: AudioSliceKind,
    made: Option<Layout>,
    options: LongFormOptions,
    ceiling: int,
    acoustics: Acoustics,
    c: Candidate,
)
    ensures
        with_layout(candidates, kind, made, options, ceiling, acoustics).contains(c) <==> (
        candidates.contains(c) || (made matches Some(layout) && c == scoring::scored(
            kind,
            layout,
            options,
            ceiling,
            acoustics,
        ))),
{
    let after = with_layout(candidates, kind, made, options, ceiling, acoustics);
    if candidates.contains(c) {
        let i = choose|i: int| 0 <= i < candidates.len() && candidates[i] == c;
        assert(after[i] == c);
    }
    if made is Some {
        assert(after[candidates.len() as int] == scoring::scored(
            kind,
            made->Some_0,
            options,
            ceiling,
            acoustics,
        ));
    }
    if after.contains(c) {
        let i = choose|i: int| 0 <= i < after.len() && after[i] == c;
        if i < candidates.len() {
            assert(candidates[i] == c);
        }
    }
}

/// The layout that is taken is that of a candidate that is neither dominated nor left out for
/// what it drops, and no other such candidate scores less, once packing that saves too little
/// has been charged, then voice activity that saves too little, and then better boundaries
/// have been rewarded.
pub proof fn law_the_cheapest_is_taken(
    candidates: Seq<Candidate>,
    rate: int,
    options: LongFormOptions,
    acoustics: Acoustics,
) -> (best: int)
    requires
        selection::covering(selection::pruned(candidates), acoustics).len() > 0,
    ensures
        ({
            let total = acoustics.sample_count;
            let left = selection::covering(selection::pruned(candidates), acoustics);
            let priced = selection::after_credits(
                selection::after_vad_penalties(
                    selection::after_packed_penalties(left, total, options),
                    total,
                    options,
                ),
                rate,
                options,
            );
            let taken = chosen(candidates, rate, options, acoustics);
            &&& 0 <= best < left.len() == priced.len()
            &&& taken.slices == left[best].layout.slices
            &&& taken.packed == left[best].layout.packed
            &&& taken.anchors == left[best].layout.anchors
            &&& taken.processed_audio_samples == left[best].layout.processed_audio_samples
            &&& forall|i: int|
                0 <= i < priced.len() ==> priced[best].score <= (#[trigger] priced[i]).score
        }),
{
    let total = acoustics.sample_count;
    let left = selection::covering(selection::pruned(candidates), acoustics);
    let packed_charged = selection::after_packed_penalties(left, total, options);
    let charged = selection::after_vad_penalties(packed_charged, total, options);
    let priced = selection::after_credits(charged, rate, options);
    let sorted = selection::in_preference(priced);
    selection::law_selection_is_the_best(priced);
    let best = choose|best: int| 0 <= best < priced.len() && priced[best] == sorted[0];
    assert(priced[best].layout == charged[best].layout);
    assert(charged[best].layout == packed_charged[best].layout);
    assert(packed_charged[best].layout == left[best].layout);
    assert forall|i: int| 0 <= i < priced.len() implies priced[best].score <= (
    #[trigger] priced[i]).score by {
        assert(!selection::preferred(priced[i], sorted[0]));
    }
    best
}

/// Voice activity must pay. Between an energy and a voice-activity candidate on the same kind
/// of timeline with as many slices, neither of which drops anything audible, the energy
/// candidate is taken where it costs no more in any other respect and is fed only a little
/// more: less than a fortieth of the recording or less than a tenth of a chunk.
pub proof fn law_voice_activity_must_pay(
    energy: Candidate,
    vad: Candidate,
    rate: int,
    options: LongFormOptions,
    acoustics: Acoustics,
)
    requires
        0 < acoustics.sample_count,
        0 <= rate,
        energy.kind == AudioSliceKind::Energy,
        vad.kind == AudioSliceKind::Vad,
        energy.is_packed() == vad.is_packed(),
        energy.layout.slices.len() == vad.layout.slices.len(),
        energy.short_slice_penalty <= vad.short_slice_penalty,
        energy.boundary_penalty <= vad.boundary_penalty,
        energy.elision_penalty <= vad.elision_penalty,
        energy.gap_edge_penalty <= vad.gap_edge_penalty,
        energy.seam_penalty <= vad.seam_penalty,
        vad.processed_samples < energy.processed_samples,
        energy.processed_samples - vad.processed_samples < acoustics.sample_count / 40
            || energy.processed_samples - vad.processed_samples < options.chunk_samples as int / 10,
        energy.score < u128::MAX,
        vad.boundary_penalty + vad.gap_edge_penalty <= usize::MAX,
        selection::audible_drop(energy, acoustics) is None,
        selection::audible_drop(vad, acoustics) is None,
    ensures
        chosen(seq![energy, vad], rate, options, acoustics).slices == energy.layout.slices,
        chosen(seq![energy, vad], rate, options, acoustics).packed == energy.layout.packed,
{
    let total = acoustics.sample_count;
    let both = seq![energy, vad];
    lemma_both_stay(energy, vad, acoustics);
    let packed_charged = selection::after_packed_penalties(both, total, options);
    assert forall|i: int| 0 <= i < 2 implies #[trigger] packed_charged[i] == both[i] by {
        selection::law_packing_that_pays_is_not_charged(both, i, total, options);
    }
    assert(packed_charged =~= both);
    let charged = selection::after_vad_penalties(both, total, options);
    selection::law_voice_activity_that_pays_is_not_charged(both, 0, total, options);
    let k = selection::law_voice_activity_that_does_not_pay_loses(both, 1, 0, total, options);
    assert(k == 0);
    let priced = selection::after_credits(charged, rate, options);
    lemma_no_credit(charged, 0, rate, options);
    lemma_no_credit(charged, 1, rate, options);
    assert(priced[0] == energy);
    assert(priced[1].score > energy.score);
    let best = law_the_cheapest_is_taken(both, rate, options, acoustics);
    assert(best == 0);
}

/// Voice activity that pays is taken. Between two such candidates the voice-activity one is
/// taken where it scores less and is fed at least a fortieth of the recording and a tenth of
/// a chunk less.
pub proof fn law_voice_activity_that_pays_is_taken(
    energy: Candidate,
    vad: Candidate,
    rate: int,
    options: LongFormOptions,
    acoustics: Acoustics,
)
    requires
        0 < acoustics.sample_count,
        0 <= rate,
        energy.kind == AudioSliceKind::Energy,
        vad.kind == AudioSliceKind::Vad,
        energy.is_packed() == vad.is_packed(),
        vad.processed_samples < energy.processed_samples,
        energy.processed_samples - vad.processed_samples >= acoustics.sample_count / 40,
        energy.processed_samples - vad.processed_samples >= options.chunk_samples as int / 10,
        vad.score < energy.score,
        selection::audible_drop(energy, acoustics) is None,
        selection::audible_drop(vad, acoustics) is None,
    ensures
        chosen(seq![energy, vad], rate, options, acoustics).slices == vad.layout.slices,
        chosen(seq![energy, vad], rate, options, acoustics).packed == vad.layout.packed,
{
    let total = acoustics.sample_count;
    let both = seq![energy, vad];
    lemma_both_stay(energy, vad, acoustics);
    let packed_charged = selection::after_packed_penalties(both, total, options);
    assert forall|i: int| 0 <= i < 2 implies #[trigger] packed_charged[i] == both[i] by {
        selection::law_packing_that_pays_is_not_charged(both, i, total, options);
    }
    assert(packed_charged =~= both);
    let charged = selection::after_vad_penalties(both, total, options);
    selection::law_voice_activity_that_pays_is_not_charged(both, 0, total, options);
    selection::law_voice_activity_that_pays_is_not_charged(both, 1, total, options);
    assert(charged =~= both);
    let priced = selection::after_credits(both, rate, options);
    assert(priced[0] == energy);
    assert(priced[1].score <= vad.score);
    let best = law_the_cheapest_is_taken(both, rate, options, acoustics);
    assert(best == 1);
}

/// Two candidates of which neither is dominated or drops anything audible both stay.
proof fn lemma_both_stay(energy: Candidate, vad: Candidate, acoustics: Acoustics)
    requires
        energy.kind == AudioSliceKind::Energy,
        vad.processed_samples < energy.processed_samples,
        selection::audible_drop(energy, acoustics) is None,
        selection::audible_drop(vad, acoustics) is None,
    ensures
        selection::covering(selection::pruned(seq![energy, vad]), acoustics) == seq![energy, vad],
{
    let both = seq![energy, vad];
    let flags = Seq::new(both.len(), |i: int| selection::is_dominated(both, both[i]));
    assert(!flags[0]);
    assert(!selection::is_dominated(both, vad)) by {
        assert forall|j: int| 0 <= j < both.len() implies !selection::dominates(
            #[trigger] both[j],
            vad,
        ) || vad.kind != AudioSliceKind::Vad by {}
    }
    assert(!flags[1]);
    reveal_with_fuel(selection::unflagged, 4);
    assert(selection::pruned(both) =~= both);
    let drops = Seq::new(
        both.len(),
        |i: int| selection::audible_drop(both[i], acoustics) is Some,
    );
    assert(!drops[0] && !drops[1]);
    assert(selection::unflagged(both, drops, 2) =~= both);
}

/// A candidate that gains nothing at its boundaries over any energy candidate earns no credit.
proof fn lemma_no_credit(candidates: Seq<Candidate>, i: int, rate: int, options: LongFormOptions)
    requires
        0 <= i < candidates.len(),
        0 <= rate,
        forall|j: int|
            0 <= j < candidates.len() ==> (#[trigger] candidates[j]).boundary_penalty
                <= candidates[i].boundary_penalty && candidates[j].gap_edge_penalty
                <= candidates[i].gap_edge_penalty || candidates[j].kind != AudioSliceKind::Energy,
    ensures
        selection::after_credits(candidates, rate, options)[i] == candidates[i],
{
    lemma_no_credit_among(candidates, candidates.len() as int, i, rate, options);
}

proof fn lemma_no_credit_among(
    candidates: Seq<Candidate>,
    count: int,
    i: int,
    rate: int,
    options: LongFormOptions,
)
    requires
        0 <= i < candidates.len(),
        0 <= count <= candidates.len(),
        0 <= rate,
        forall|j: int|
            0 <= j < candidates.len() ==> (#[trigger] candidates[j]).boundary_penalty
                <= candidates[i].boundary_penalty && candidates[j].gap_edge_penalty
                <= candidates[i].gap_edge_penalty || candidates[j].kind != AudioSliceKind::Energy,
    ensures
        selection::best_credit(candidates, count, candidates[i], rate, options) == 0,
    decreases count,
{
    if count > 0 {
        lemma_no_credit_among(candidates, count - 1, i, rate, options);
        assert(candidates[count - 1].boundary_penalty <= candidates[i].boundary_penalty
            && candidates[count - 1].gap_edge_penalty <= candidates[i].gap_edge_penalty
            || candidates[count - 1].kind != AudioSliceKind::Energy);
    }
}

/// Where a detector finds no speech at all, voice-activity planning gives the energy windows
/// if the settings ask for that and nothing if they do not; where it finds any, it gives the
/// slices over it.
pub proof fn law_empty_detections_fall_back(
    speech: Seq<LongFormVadSlice>,
    options: LongFormOptions,
    ceiling: int,
    acoustics: Acoustics,
)
    ensures
        ({
            let in_place = layout::vad_slices_of_speech(
                speech,
                acoustics.levels,
                acoustics.sample_count,
                options,
                ceiling,
            );
            let planned = vad_plan(speech, options, ceiling, acoustics);
            &&& in_place.len() > 0 ==> planned == in_place
            &&& in_place.len() == 0 && options.fallback_to_energy_when_vad_empty ==> planned
                == windows::energy_slices(
                Seq::empty(),
                acoustics.levels,
                acoustics.sample_count,
                0,
                acoustics.sample_count,
                options,
                ceiling,
            )
            &&& in_place.len() == 0 && !options.fallback_to_energy_when_vad_empty ==> planned.len()
                == 0
        }),
{
}

/// The turn in which a candidate of automatic planning is tried.
pub open spec fn turn(c: Candidate) -> int {
    match c.kind {
        AudioSliceKind::Energy => if c.is_packed() {
            1
        } else {
            0
        },
        AudioSliceKind::Fixed => 2,
        AudioSliceKind::Vad => if c.is_packed() {
            3
        } else {
            4
        },
        AudioSliceKind::Full => 5,
    }
}

/// The ways to cut a recording are tried in turn, each at most once: energy windows, energy
/// packed, fixed windows, and voice activity packed and then in place. The energy windows are
/// always there.
pub proof fn law_ways_are_tried_in_turn(
    energy_speech: Seq<LongFormVadSlice>,
    vad_speech: Option<Seq<LongFormVadSlice>>,
    options: LongFormOptions,
    ceiling: int,
    acoustics: Acoustics,
    i: int,
    j: int,
)
    ensures
        ({
            let candidates = auto_candidates(
                energy_speech,
                vad_speech,
                options,
                ceiling,
                acoustics,
            );
            &&& candidates.len() >= 1
            &&& turn(candidates[0]) == 0
            &&& 0 <= i < j < candidates.len() ==> turn(candidates[i]) < turn(candidates[j])
            &&& vad_speech is None && 0 <= i < candidates.len() ==> turn(candidates[i]) <= 2
        }),
{
}

} // verus!
