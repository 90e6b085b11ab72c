//! Planning a request: the detectors are asked, the layout is made, and the packed
//! audio, if any, is copied once it has been admitted.

use vstd::math::*;
use vstd::prelude::*;

use crate::longform::duration::executor_window_limit_samples;
use crate::longform::errors;
use crate::longform::errors::{
    check_planning_canceled, map_vad_provider_error, LongFormSliceError,
    LongFormSlicePlanningError, LongFormVadProviderError,
};
use crate::longform::layout;
use crate::longform::layout::{
    candidate_kept_and_dropped_ranges, layout_from_identity_slices,
    plan_vad_slices_from_speech_spans, Layout, LongFormPlanningLayout,
};
use crate::longform::measures::{Acoustics, AudibleWindow, GapEdges, RecordingMeasures};
use crate::longform::options::{LongFormMode, LongFormOptions};
use crate::longform::packing;
use crate::longform::packing::materialize_packed_audio;
use crate::longform::planner;
use crate::longform::provider;
use crate::longform::provider::{ask_provider, LongFormVadProvider, LongFormVadProviderKind};
use crate::longform::scoring::AutoPlanCandidate;
use crate::longform::selection;
use crate::longform::slices;
use crate::longform::slices::{
    apply_padding, full_slice, smaller, AudioSlice, AudioSliceKind, LongFormVadSlice,
};
use crate::longform::spans;
use crate::longform::timeline::{TimelineAnchor, TimelineMap};
use crate::longform::windows;
use crate::longform::windows::{plan_energy_slices, plan_fixed_slices};
use crate::text;

verus! {

/// What is counted of a plan.
#[derive(Debug, Clone, PartialEq, Eq)]
pub struct LongFormSliceStats {
    pub chunk_count: usize,
    pub skipped_silent_chunks: usize,
    pub duplicate_merge_count: usize,
    pub provenance: Vec<String>,
}

/// What a benchmark reports of a plan.
#[derive(Debug, Clone, PartialEq, Eq)]
pub struct LongFormBenchmarkMetadata {
    pub chunk_count: usize,
    pub skipped_silent_chunks: usize,
    pub duplicate_merge_count: usize,
    pub provenance: Vec<String>,
}

impl Default for LongFormSliceStats {
    fn default() -> (stats: Self)
        ensures
            stats.chunk_count == 0,
            stats.skipped_silent_chunks == 0,
            stats.duplicate_merge_count == 0,
            stats.provenance@ == Seq::<String>::empty(),
    {
        LongFormSliceStats {
            chunk_count: 0,
            skipped_silent_chunks: 0,
            duplicate_merge_count: 0,
            provenance: Vec::new(),
        }
    }
}

impl Default for LongFormBenchmarkMetadata {
    fn default() -> (metadata: Self)
        ensures
            metadata.chunk_count == 0,
            metadata.skipped_silent_chunks == 0,
            metadata.duplicate_merge_count == 0,
            metadata.provenance@ == Seq::<String>::empty(),
    {
        LongFormBenchmarkMetadata {
            chunk_count: 0,
            skipped_silent_chunks: 0,
            duplicate_merge_count: 0,
            provenance: Vec::new(),
        }
    }
}

/// The slices of a recording, and the audio and timeline that they lie on.
#[derive(Debug, Clone, PartialEq, Eq)]
pub struct LongFormSlicePlan<T> {
    pub sample_rate_hz: u32,
    pub total_samples: usize,
    pub slices: Vec<AudioSlice>,
    /// The packed audio, where the slices lie on a packed timeline.
    pub processed_audio: Option<Vec<T>>,
    pub timeline: TimelineMap,
    pub stats: LongFormSliceStats,
}

/// A [`LongFormSlicePlan`] as a value.
#[verifier::ext_equal]
pub struct SlicePlan<T> {
    pub sample_rate_hz: u32,
    pub total_samples: usize,
    pub slices: Seq<AudioSlice>,
    pub processed_audio: Option<Seq<T>>,
    pub anchors: Seq<TimelineAnchor>,
    pub chunk_count: usize,
    pub skipped_silent_chunks: usize,
    pub duplicate_merge_count: usize,
    pub provenance: Seq<Seq<char>>,
}

impl<T> View for LongFormSlicePlan<T> {
    type V = SlicePlan<T>;

    open spec fn view(&self) -> SlicePlan<T> {
        SlicePlan {
            sample_rate_hz: self.sample_rate_hz,
            total_samples: self.total_samples,
            slices: self.slices@,
            processed_audio: match self.processed_audio {
                Some(audio) => Some(audio@),
                None => None,
            },
            anchors: self.timeline@,
            chunk_count: self.stats.chunk_count,
            skipped_silent_chunks: self.stats.skipped_silent_chunks,
            duplicate_merge_count: self.stats.duplicate_merge_count,
            provenance: text::texts(self.stats.provenance@),
        }
    }
}

/// The plan of an empty recording.
pub open spec fn empty_plan<T>(rate: u32) -> SlicePlan<T> {
    SlicePlan {
        sample_rate_hz: rate,
        total_samples: 0,
        slices: Seq::empty(),
        processed_audio: None,
        anchors: Seq::empty(),
        chunk_count: 0,
        skipped_silent_chunks: 0,
        duplicate_merge_count: 0,
        provenance: Seq::empty(),
    }
}

/// The plan that a layout makes: on a packed timeline the packed audio is added, on the
/// recording's own the slices are padded.
pub open spec fn finished<T>(
    made: Layout,
    samples: Seq<T>,
    silence: T,
    rate: u32,
    options: LongFormOptions,
) -> SlicePlan<T> {
    SlicePlan {
        sample_rate_hz: rate,
        total_samples: samples.len() as usize,
        slices: if made.is_packed() {
            made.slices
        } else {
            slices::padded_slices(
                made.slices,
                samples.len() as int,
                options.padding_samples as int,
                options.ceiling(rate),
            )
        },
        processed_audio: match made.packed {
            Some(plan) => Some(
                packing::packed_audio(
                    samples,
                    plan.spans,
                    plan.spans.len() as int,
                    plan.seam_samples as int,
                    silence,
                ),
            ),
            None => None,
        },
        anchors: made.anchors,
        chunk_count: made.slices.len() as usize,
        skipped_silent_chunks: 0,
        duplicate_merge_count: 0,
        provenance: made.provenance,
    }
}

// ---------------------------------------------------------------------------
// Audio that a plan drops
// ---------------------------------------------------------------------------

/// What a plan drops of a recording.
#[derive(Debug, Clone, PartialEq, Eq)]
pub struct DroppedAudio {
    pub kept: Vec<LongFormVadSlice>,
    pub dropped: Vec<LongFormVadSlice>,
    /// The dropped ranges that hold an audible window, each with the first of them.
    pub audible: Vec<(LongFormVadSlice, AudibleWindow)>,
}

/// The first `count` dropped ranges that hold an audible window, each with the first of
/// them.
pub open spec fn audible_drops(
    kept: Seq<LongFormVadSlice>,
    dropped: Seq<LongFormVadSlice>,
    count: int,
    acoustics: Acoustics,
) -> Seq<(LongFormVadSlice, AudibleWindow)>
    decreases count,
{
    if count <= 0 {
        Seq::empty()
    } else {
        let before = audible_drops(kept, dropped, count - 1, acoustics);
        let range = dropped[count - 1];
        match (acoustics.audible)(kept, range.start_sample as int, range.end_sample as int) {
            Some(window) => before.push((range, window)),
            None => before,
        }
    }
}

/// Whether some range holds a sample.
pub open spec fn holds_any(ranges: Seq<LongFormVadSlice>) -> bool {
    exists|i: int| 0 <= i < ranges.len() && (#[trigger] ranges[i]).nonempty()
}

impl<
    L: Fn(usize, usize) -> u32,
    O: Fn(&TimelineMap, usize) -> usize,
    B: Fn(usize, usize, usize) -> usize,
    E: Fn(&Vec<LongFormVadSlice>, usize, usize) -> usize,
    G: Fn(&Vec<LongFormVadSlice>, GapEdges, usize) -> usize,
    A: Fn(&Vec<LongFormVadSlice>, usize, usize) -> Option<AudibleWindow>,
    D: Fn(&Vec<LongFormVadSlice>, &Vec<LongFormVadSlice>, AudibleWindow) -> String,
> RecordingMeasures<L, O, B, E, G, A, D> {
    /// Whether a report says what a layout drops of the recording, and which of it reads
    /// as audible.
    pub open spec fn reports_on(&self, report: DroppedAudio, made: Layout) -> bool {
        let kept = made.kept(self.sample_count as int);
        let dropped = made.dropped(self.sample_count as int);
        &&& report.kept@ == kept
        &&& report.dropped@ == dropped
        &&& report.audible@ == audible_drops(
            kept,
            dropped,
            dropped.len() as int,
            self.acoustics(),
        )
    }

    /// Whether what a layout drops, if it drops any sample, was handed to a reporter.
    pub open spec fn reported<R: Fn(&DroppedAudio)>(&self, reporter: R, made: Layout) -> bool {
        holds_any(made.dropped(self.sample_count as int)) ==> exists|report: DroppedAudio|
            #[trigger] self.reports_on(report, made) && call_ensures(reporter, (&report,), ())
    }

    /// What a layout drops of the recording, and which of it reads as audible; nothing
    /// where no sample is dropped.
    pub fn dropped_audio(&self, made: &LongFormPlanningLayout) -> (report: Option<DroppedAudio>)
        requires
            self.answers(),
        ensures
            match report {
                None => !holds_any(made@.dropped(self.sample_count as int)),
                Some(found) => holds_any(made@.dropped(self.sample_count as int))
                    && self.reports_on(found, made@),
            },
    {
        let (kept, dropped) = candidate_kept_and_dropped_ranges(made, self.sample_count);
        proof {
            spans::lemma_dropped_ranges_are_ranges(made@.ranges(), self.sample_count as int);
        }
        let mut any: bool = false;
        let mut audible: Vec<(LongFormVadSlice, AudibleWindow)> = Vec::new();
        let mut at: usize = 0;
        while at < dropped.len()
            invariant
                at <= dropped.len(),
                self.answers(),
                forall|i: int|
                    0 <= i < dropped.len() ==> (#[trigger] dropped@[i]).start_sample
                        <= dropped@[i].end_sample <= self.sample_count,
                any <==> exists|i: int| 0 <= i < at && (#[trigger] dropped@[i]).nonempty(),
                audible@ == audible_drops(kept@, dropped@, at as int, self.acoustics()),
            decreases dropped.len() - at,
        {
            let range: LongFormVadSlice = dropped[at];
            assert(dropped@[at as int].start_sample <= dropped@[at as int].end_sample);
            if range.end_sample > range.start_sample {
                any = true;
            }
            if let Some(window) = self.ask_audible(&kept, range.start_sample, range.end_sample) {
                audible.push((range, window));
            }
            at = at + 1;
        }
        if any {
            Some(DroppedAudio { kept, dropped, audible })
        } else {
            None
        }
    }

    /// Whether voice-activity planning may give these slices: energy windows where no
    /// detector is there and the settings allow it, else what the detector's answer
    /// makes.
    pub open spec fn vad_lays_out<T, P: LongFormVadProvider<T>, C: Fn() -> bool>(
        &self,
        samples: &[T],
        rate: u32,
        options: &LongFormOptions,
        vad_provider: Option<&P>,
        canceled: &C,
        planned: Seq<AudioSlice>,
    ) -> bool {
        match vad_provider {
            None => options.fallback_to_energy_when_vad_unavailable && planned
                == planner::energy_plan(self.acoustics(), *options, options.ceiling(rate)),
            Some(detector) => exists|speech: Vec<LongFormVadSlice>|
                #[trigger] provider::may_reply(
                    detector,
                    samples,
                    rate,
                    options,
                    canceled,
                    Ok(speech),
                ) && planned == planner::vad_plan(
                    speech@,
                    *options,
                    options.ceiling(rate),
                    self.acoustics(),
                ),
        }
    }

    /// Slices over what a detector calls speech; energy windows where there is no
    /// detector, or it finds nothing, and the settings allow it.
    pub fn plan_vad_slices<T, P: LongFormVadProvider<T>, C: Fn() -> bool>(
        &self,
        samples: &[T],
        sample_rate_hz: u32,
        options: &LongFormOptions,
        vad_provider: Option<&P>,
        canceled: &C,
    ) -> (result: Result<Vec<AudioSlice>, LongFormSliceError>)
        requires
            self.answers(),
            call_requires(*canceled, ()),
            options.has_ceiling(sample_rate_hz),
            planner::vad_advances(*options, options.ceiling(sample_rate_hz)),
        ensures
            match result {
                Ok(planned) => self.vad_lays_out(
                    samples,
                    sample_rate_hz,
                    options,
                    vad_provider,
                    canceled,
                    planned@,
                ) && call_ensures(*canceled, (), false),
                Err(error) => {
                    ||| error == LongFormSliceError::Canceled && call_ensures(*canceled, (), true)
                    ||| call_ensures(*canceled, (), false) && error
                        == LongFormSliceError::VadUnavailable && vad_provider is None
                        && !options.fallback_to_energy_when_vad_unavailable
                    ||| call_ensures(*canceled, (), false) && vad_provider is Some
                        && detector_fails(
                        vad_provider->Some_0,
                        samples,
                        sample_rate_hz,
                        options,
                        canceled,
                        error,
                    )
                },
            },
            !call_ensures(*canceled, (), false) ==> result == Err::<Vec<AudioSlice>, _>(
                LongFormSliceError::Canceled,
            ),
    {
        if let Err(error) = check_planning_canceled(canceled) {
            return Err(error);
        }
        let detector: &P = match vad_provider {
            Some(detector) => detector,
            None => {
                if options.fallback_to_energy_when_vad_unavailable {
                    return Ok(
                        plan_energy_slices(&self.meter, self.sample_count, sample_rate_hz, options),
                    );
                }
                return Err(LongFormSliceError::VadUnavailable);
            },
        };
        let reply = ask_provider(detector, samples, sample_rate_hz, options, canceled);
        let speech: Vec<LongFormVadSlice> = match reply {
            Ok(speech) => speech,
            Err(error) => {
                return Err(map_vad_provider_error(error));
            },
        };
        if let Err(error) = check_planning_canceled(canceled) {
            return Err(error);
        }
        Ok(self.vad_slices_from_speech(speech, sample_rate_hz, options))
    }

    /// The slices of voice-activity planning, for what the detector calls speech.
    pub fn vad_slices_from_speech(
        &self,
        speech: Vec<LongFormVadSlice>,
        sample_rate_hz: u32,
        options: &LongFormOptions,
    ) -> (planned: Vec<AudioSlice>)
        requires
            self.answers(),
            options.has_ceiling(sample_rate_hz),
            planner::vad_advances(*options, options.ceiling(sample_rate_hz)),
        ensures
            planned@ == planner::vad_plan(
                speech@,
                *options,
                options.ceiling(sample_rate_hz),
                self.acoustics(),
            ),
    {
        let planned: Vec<AudioSlice> = plan_vad_slices_from_speech_spans(
            &self.meter,
            self.sample_count,
            sample_rate_hz,
            options,
            speech,
        );
        if planned.len() == 0 && options.fallback_to_energy_when_vad_empty {
            return plan_energy_slices(&self.meter, self.sample_count, sample_rate_hz, options);
        }
        planned
    }

    /// Whether automatic planning may give this layout: the whole recording where it
    /// fits one chunk, else what the detectors' answers make. A detector that decides by
    /// energy is not asked again.
    pub open spec fn auto_lays_out<
        T,
        P: LongFormVadProvider<T>,
        Q: LongFormVadProvider<T>,
        C: Fn() -> bool,
    >(
        &self,
        samples: &[T],
        rate: u32,
        options: &LongFormOptions,
        energy_provider: &Q,
        vad_provider: Option<&P>,
        canceled: &C,
        made: Layout,
    ) -> bool {
        if self.sample_count <= min(options.chunk_samples as int, options.ceiling(rate)) {
            made == layout::identity_layout(planner::whole(self.sample_count as int))
        } else {
            exists|energy_speech: Vec<LongFormVadSlice>, vad_speech: Option<Vec<LongFormVadSlice>>|
                #![trigger
                    provider::may_reply(
                        energy_provider,
                        samples,
                        rate,
                        options,
                        canceled,
                        Ok(energy_speech),
                    ),
                    detector_answers(
                        samples,
                        rate,
                        options,
                        vad_provider,
                        canceled,
                        vad_speech,
                    )]
                provider::may_reply(
                    energy_provider,
                    samples,
                    rate,
                    options,
                    canceled,
                    Ok(energy_speech),
                ) && detector_answers(
                    samples,
                    rate,
                    options,
                    vad_provider,
                    canceled,
                    vad_speech,
                ) && made == planner::auto_layout(
                    energy_speech@,
                    match vad_speech {
                        Some(speech) => Some(speech@),
                        None => None,
                    },
                    rate as int,
                    *options,
                    options.ceiling(rate),
                    self.acoustics(),
                )
        }
    }

    /// Automatic planning: several ways to cut the recording are scored and the best is
    /// taken.
    pub fn plan_auto_slices<
        T,
        P: LongFormVadProvider<T>,
        Q: LongFormVadProvider<T>,
        C: Fn() -> bool,
    >(
        &self,
        samples: &[T],
        sample_rate_hz: u32,
        options: &LongFormOptions,
        energy_provider: &Q,
        vad_provider: Option<&P>,
        canceled: &C,
    ) -> (result: Result<LongFormPlanningLayout, LongFormSliceError>)
        requires
            self.answers(),
            call_requires(*canceled, ()),
            options.has_ceiling(sample_rate_hz),
            self.sample_count > min(
                options.chunk_samples as int,
                options.ceiling(sample_rate_hz),
            ) ==> planner::auto_advances(*options, options.ceiling(sample_rate_hz)),
        ensures
            match result {
                Ok(made) => self.auto_lays_out(
                    samples,
                    sample_rate_hz,
                    options,
                    energy_provider,
                    vad_provider,
                    canceled,
                    made@,
                ) && call_ensures(*canceled, (), false),
                Err(error) => {
                    ||| error == LongFormSliceError::Canceled && call_ensures(*canceled, (), true)
                    ||| call_ensures(*canceled, (), false) && self.sample_count > min(
                        options.chunk_samples as int,
                        options.ceiling(sample_rate_hz),
                    ) && (detector_fails(
                        energy_provider,
                        samples,
                        sample_rate_hz,
                        options,
                        canceled,
                        error,
                    ) || (vad_provider is Some && detector_fails(
                        vad_provider->Some_0,
                        samples,
                        sample_rate_hz,
                        options,
                        canceled,
                        error,
                    )))
                },
            },
            !call_ensures(*canceled, (), false) ==> result == Err::<LongFormPlanningLayout, _>(
                LongFormSliceError::Canceled,
            ),
    {
        if let Err(error) = check_planning_canceled(canceled) {
            return Err(error);
        }
        let max_chunk_samples: usize = options.max_chunk_samples(sample_rate_hz);
        if self.sample_count <= smaller(options.chunk_samples, max_chunk_samples) {
            return Ok(whole_recording(self.sample_count));
        }
        let mut candidates: Vec<AutoPlanCandidate> = Vec::new();
        assert(selection::values(candidates@) =~= Seq::empty());
        self.push_energy_windows(&mut candidates, sample_rate_hz, options);
        if let Err(error) = check_planning_canceled(canceled) {
            return Err(error);
        }
        let reply = ask_provider(energy_provider, samples, sample_rate_hz, options, canceled);
        let energy_speech: Vec<LongFormVadSlice> = match reply {
            Ok(speech) => speech,
            Err(error) => {
                return Err(map_vad_provider_error(error));
            },
        };
        if let Err(error) = check_planning_canceled(canceled) {
            return Err(error);
        }
        self.push_packed_speech(
            &mut candidates,
            AudioSliceKind::Energy,
            energy_speech,
            sample_rate_hz,
            options,
        );
        if let Err(error) = check_planning_canceled(canceled) {
            return Err(error);
        }
        self.push_fixed_windows(&mut candidates, sample_rate_hz, options);
        if let Err(error) = check_planning_canceled(canceled) {
            return Err(error);
        }
        let ghost mut vad_speech: Option<Vec<LongFormVadSlice>> = None;
        if let Some(detector) = vad_provider {
            if detector.provider_kind() != LongFormVadProviderKind::EnergyLike {
                let reply = ask_provider(detector, samples, sample_rate_hz, options, canceled);
                let speech: Vec<LongFormVadSlice> = match reply {
                    Ok(speech) => speech,
                    Err(error) => {
                        return Err(map_vad_provider_error(error));
                    },
                };
                proof {
                    vad_speech = Some(speech);
                }
                if let Err(error) = check_planning_canceled(canceled) {
                    return Err(error);
                }
                self.push_packed_speech(
                    &mut candidates,
                    AudioSliceKind::Vad,
                    packing::copied(&speech),
                    sample_rate_hz,
                    options,
                );
                self.push_speech_in_place(&mut candidates, speech, sample_rate_hz, options);
            }
        }
        assert(detector_answers(
            samples,
            sample_rate_hz,
            options,
            vad_provider,
            canceled,
            vad_speech,
        ));
        if let Err(error) = check_planning_canceled(canceled) {
            return Err(error);
        }
        let made: LongFormPlanningLayout = self.choose_auto_layout(
            candidates,
            sample_rate_hz,
            options,
        );
        if let Err(error) = check_planning_canceled(canceled) {
            return Err(error);
        }
        Ok(made)
    }
}

/// The layout of one slice over a whole recording.
fn whole_recording(total_samples: usize) -> (made: LongFormPlanningLayout)
    ensures
        made@ == layout::identity_layout(planner::whole(total_samples as int)),
{
    let mut only: Vec<AudioSlice> = Vec::new();
    only.push(full_slice(total_samples));
    assert(only@ =~= planner::whole(total_samples as int));
    layout_from_identity_slices(only)
}

/// Whether a further detector may have called this speech: none where there is no such
/// detector, or it decides by energy.
pub open spec fn detector_answers<T, P: LongFormVadProvider<T>, C: Fn() -> bool>(
    samples: &[T],
    rate: u32,
    options: &LongFormOptions,
    vad_provider: Option<&P>,
    canceled: &C,
    vad_speech: Option<Vec<LongFormVadSlice>>,
) -> bool {
    match vad_speech {
        None => match vad_provider {
            None => true,
            Some(detector) => call_ensures(
                P::provider_kind,
                (detector,),
                LongFormVadProviderKind::EnergyLike,
            ),
        },
        Some(speech) => vad_provider is Some && call_ensures(
            P::provider_kind,
            (vad_provider->Some_0,),
            LongFormVadProviderKind::Custom,
        ) && provider::may_reply(
            vad_provider->Some_0,
            samples,
            rate,
            options,
            canceled,
            Ok(speech),
        ),
    }
}

/// Whether a detector may fail planning with this error.
pub open spec fn detector_fails<T, P: LongFormVadProvider<T>, C: Fn() -> bool>(
    detector: &P,
    samples: &[T],
    rate: u32,
    options: &LongFormOptions,
    canceled: &C,
    error: LongFormSliceError,
) -> bool {
    exists|failure: LongFormVadProviderError|
        #[trigger] provider::may_reply(detector, samples, rate, options, canceled, Err(failure))
            && error == errors::provider_failure(failure)
}

// ---------------------------------------------------------------------------
// A request
// ---------------------------------------------------------------------------

/// Settings under which a recording can be planned: the ceiling is a duration that the
/// machine can count, and the planner of the mode moves forward.
pub open spec fn plannable(options: LongFormOptions, rate: u32, total: int) -> bool {
    &&& options.has_ceiling(rate)
    &&& match options.mode {
        LongFormMode::Off => true,
        LongFormMode::Fixed => true,
        LongFormMode::Energy => windows::energy_windows_advance(options, options.ceiling(rate)),
        LongFormMode::Vad => planner::vad_advances(options, options.ceiling(rate)),
        LongFormMode::Auto => total > min(options.chunk_samples as int, options.ceiling(rate))
            ==> planner::auto_advances(options, options.ceiling(rate)),
    }
}

/// Whether a recording of `total_samples` can be planned under these settings.
pub fn can_plan(options: &LongFormOptions, sample_rate_hz: u32, total_samples: usize) -> (can: bool)
    ensures
        can == plannable(*options, sample_rate_hz, total_samples as int),
{
    if sample_rate_hz == 0 {
        return false;
    }
    let ceiling: usize = match executor_window_limit_samples(
        options.max_chunk_seconds_bits,
        sample_rate_hz,
    ) {
        Ok(ceiling) => ceiling,
        Err(_) => {
            return false;
        },
    };
    proof {
        crate::longform::duration::law_window_limit_is_the_smallest_cover(
            options.max_chunk_seconds_bits,
            sample_rate_hz as int,
            0,
        );
    }
    let energy_advances: bool = options.min_chunk_samples >= 1 || (options.chunk_samples >= 1 && (
    ceiling >= 2 || options.search_samples < options.chunk_samples));
    let vad_advances: bool = options.min_chunk_samples >= 1 || ceiling >= 2
        || options.search_samples == 0;
    match options.mode {
        LongFormMode::Off => true,
        LongFormMode::Fixed => true,
        LongFormMode::Energy => energy_advances,
        LongFormMode::Vad => vad_advances && (energy_advances || !(
        options.fallback_to_energy_when_vad_empty
            || options.fallback_to_energy_when_vad_unavailable)),
        LongFormMode::Auto => total_samples <= smaller(options.chunk_samples, ceiling) || (
        energy_advances && vad_advances),
    }
}

impl<
    L: Fn(usize, usize) -> u32,
    O: Fn(&TimelineMap, usize) -> usize,
    B: Fn(usize, usize, usize) -> usize,
    E: Fn(&Vec<LongFormVadSlice>, usize, usize) -> usize,
    G: Fn(&Vec<LongFormVadSlice>, GapEdges, usize) -> usize,
    A: Fn(&Vec<LongFormVadSlice>, usize, usize) -> Option<AudibleWindow>,
    D: Fn(&Vec<LongFormVadSlice>, &Vec<LongFormVadSlice>, AudibleWindow) -> String,
> RecordingMeasures<L, O, B, E, G, A, D> {
    /// Whether planning may give this layout.
    pub open spec fn lays_out<
        T,
        P: LongFormVadProvider<T>,
        Q: LongFormVadProvider<T>,
        C: Fn() -> bool,
    >(
        &self,
        samples: &[T],
        rate: u32,
        options: &LongFormOptions,
        energy_provider: &Q,
        vad_provider: Option<&P>,
        canceled: &C,
        made: Layout,
    ) -> bool {
        match options.mode {
            LongFormMode::Off => made == layout::identity_layout(
                planner::whole(self.sample_count as int),
            ),
            LongFormMode::Fixed => made == layout::identity_layout(
                planner::fixed_plan(self.acoustics(), *options, options.ceiling(rate)),
            ),
            LongFormMode::Energy => made == layout::identity_layout(
                planner::energy_plan(self.acoustics(), *options, options.ceiling(rate)),
            ),
            LongFormMode::Vad => made == layout::identity_layout(made.slices)
                && self.vad_lays_out(
                samples,
                rate,
                options,
                vad_provider,
                canceled,
                made.slices,
            ),
            LongFormMode::Auto => self.auto_lays_out(
                samples,
                rate,
                options,
                energy_provider,
                vad_provider,
                canceled,
                made,
            ),
        }
    }

    /// Whether planning may stop with this error once the request is known to be valid.
    pub open spec fn fails_to_lay_out<
        T,
        P: LongFormVadProvider<T>,
        Q: LongFormVadProvider<T>,
        C: Fn() -> bool,
    >(
        &self,
        samples: &[T],
        rate: u32,
        options: &LongFormOptions,
        energy_provider: &Q,
        vad_provider: Option<&P>,
        canceled: &C,
        error: LongFormSliceError,
    ) -> bool {
        match options.mode {
            LongFormMode::Vad => {
                ||| error == LongFormSliceError::VadUnavailable && vad_provider is None
                    && !options.fallback_to_energy_when_vad_unavailable
                ||| vad_provider is Some && detector_fails(
                    vad_provider->Some_0,
                    samples,
                    rate,
                    options,
                    canceled,
                    error,
                )
            },
            LongFormMode::Auto => {
                &&& self.sample_count > min(options.chunk_samples as int, options.ceiling(rate))
                &&& {
                    ||| detector_fails(energy_provider, samples, rate, options, canceled, error)
                    ||| vad_provider is Some && detector_fails(
                        vad_provider->Some_0,
                        samples,
                        rate,
                        options,
                        canceled,
                        error,
                    )
                }
            },
            _ => false,
        }
    }

    fn lay_out<T, P: LongFormVadProvider<T>, Q: LongFormVadProvider<T>, C: Fn() -> bool>(
        &self,
        samples: &[T],
        sample_rate_hz: u32,
        options: &LongFormOptions,
        energy_provider: &Q,
        vad_provider: Option<&P>,
        canceled: &C,
    ) -> (result: Result<LongFormPlanningLayout, LongFormSliceError>)
        requires
            self.answers(),
            call_requires(*canceled, ()),
            plannable(*options, sample_rate_hz, self.sample_count as int),
        ensures
            match result {
                Ok(made) => self.lays_out(
                    samples,
                    sample_rate_hz,
                    options,
                    energy_provider,
                    vad_provider,
                    canceled,
                    made@,
                ),
                Err(error) => {
                    ||| error == LongFormSliceError::Canceled && call_ensures(*canceled, (), true)
                    ||| self.fails_to_lay_out(
                        samples,
                        sample_rate_hz,
                        options,
                        energy_provider,
                        vad_provider,
                        canceled,
                        error,
                    )
                },
            },
    {
        match options.mode {
            LongFormMode::Off => Ok(whole_recording(self.sample_count)),
            LongFormMode::Fixed => Ok(
                layout_from_identity_slices(
                    plan_fixed_slices(self.sample_count, sample_rate_hz, options),
                ),
            ),
            LongFormMode::Energy => Ok(
                layout_from_identity_slices(
                    plan_energy_slices(&self.meter, self.sample_count, sample_rate_hz, options),
                ),
            ),
            LongFormMode::Vad => match self.plan_vad_slices(
                samples,
                sample_rate_hz,
                options,
                vad_provider,
                canceled,
            ) {
                Ok(planned) => Ok(layout_from_identity_slices(planned)),
                Err(error) => Err(error),
            },
            LongFormMode::Auto => self.plan_auto_slices(
                samples,
                sample_rate_hz,
                options,
                energy_provider,
                vad_provider,
                canceled,
            ),
        }
    }

    /// Every layout but that of mode `Off`, which takes the recording whole, is sound.
    pub proof fn lemma_layouts_are_sound<
        T,
        P: LongFormVadProvider<T>,
        Q: LongFormVadProvider<T>,
        C: Fn() -> bool,
    >(
        &self,
        samples: &[T],
        rate: u32,
        options: &LongFormOptions,
        energy_provider: &Q,
        vad_provider: Option<&P>,
        canceled: &C,
        made: Layout,
    )
        requires
            plannable(*options, rate, self.sample_count as int),
            self.lays_out(
                samples,
                rate,
                options,
                energy_provider,
                vad_provider,
                canceled,
                made,
            ),
        ensures
            options.mode != LongFormMode::Off ==> layout::is_sound(
                made,
                self.sample_count as int,
                options.ceiling(rate),
            ),
            options.mode == LongFormMode::Off ==> made.packed is None,
            made.processed_audio_samples is None,
    {
        let ceiling = options.ceiling(rate);
        let acoustics = self.acoustics();
        crate::longform::duration::law_window_limit_is_the_smallest_cover(
            options.max_chunk_seconds_bits,
            rate as int,
            0,
        );
        match options.mode {
            LongFormMode::Off => {},
            LongFormMode::Fixed => {
                planner::lemma_fixed_plan_is_sound(acoustics, *options, ceiling);
            },
            LongFormMode::Energy => {
                planner::lemma_energy_plan_is_sound(acoustics, *options, ceiling);
            },
            LongFormMode::Vad => {
                match vad_provider {
                    None => {
                        planner::lemma_energy_plan_is_sound(acoustics, *options, ceiling);
                    },
                    Some(detector) => {
                        let speech = choose|speech: Vec<LongFormVadSlice>|
                            #[trigger] provider::may_reply(
                                detector,
                                samples,
                                rate,
                                options,
                                canceled,
                                Ok(speech),
                            ) && made.slices == planner::vad_plan(
                                speech@,
                                *options,
                                ceiling,
                                acoustics,
                            );
                        planner::law_vad_plan_is_sound(speech@, *options, ceiling, acoustics);
                    },
                }
            },
            LongFormMode::Auto => {
                if self.sample_count > min(options.chunk_samples as int, ceiling) {
                    let (energy_speech, vad_speech) = choose|
                        energy_speech: Vec<LongFormVadSlice>,
                        vad_speech: Option<Vec<LongFormVadSlice>>,
                    |
                        #![trigger
                            provider::may_reply(
                                energy_provider,
                                samples,
                                rate,
                                options,
                                canceled,
                                Ok(energy_speech),
                            ),
                            detector_answers(
                                samples,
                                rate,
                                options,
                                vad_provider,
                                canceled,
                                vad_speech,
                            )]
                        provider::may_reply(
                            energy_provider,
                            samples,
                            rate,
                            options,
                            canceled,
                            Ok(energy_speech),
                        ) && detector_answers(
                            samples,
                            rate,
                            options,
                            vad_provider,
                            canceled,
                            vad_speech,
                        ) && made == planner::auto_layout(
                            energy_speech@,
                            match vad_speech {
                                Some(speech) => Some(speech@),
                                None => None,
                            },
                            rate as int,
                            *options,
                            ceiling,
                            acoustics,
                        );
                    planner::law_auto_layout_is_sound(
                        energy_speech@,
                        match vad_speech {
                            Some(speech) => Some(speech@),
                            None => None,
                        },
                        rate as int,
                        *options,
                        ceiling,
                        acoustics,
                    );
                }
            },
        }
    }

    /// Plans a request, and asks `admit_packed_samples` before a packed timeline is
    /// allocated, so that a request that cannot be held is refused before the second
    /// recording-sized allocation exists. What the plan drops is handed to
    /// `report_dropped`.
    ///
    /// `validation` is the verdict on the settings, and `silence` the sample laid on
    /// seams.
    pub fn plan_longform_slices_with_materialization_gate<
        T: Copy,
        P: LongFormVadProvider<T>,
        Q: LongFormVadProvider<T>,
        C: Fn() -> bool,
        R: Fn(&DroppedAudio),
        X,
        F: FnOnce(usize) -> Result<(), X>,
    >(
        &self,
        samples: &[T],
        silence: T,
        sample_rate_hz: u32,
        options: &LongFormOptions,
        validation: Result<(), String>,
        energy_provider: &Q,
        vad_provider: Option<&P>,
        canceled: &C,
        report_dropped: &R,
        admit_packed_samples: F,
    ) -> (result: Result<LongFormSlicePlan<T>, LongFormSlicePlanningError<X>>)
        requires
            self.answers(),
            samples@.len() == self.sample_count,
            call_requires(*canceled, ()),
            forall|dropped: DroppedAudio| #[trigger] call_requires(*report_dropped, (&dropped,)),
            forall|count: usize| #[trigger] call_requires(admit_packed_samples, (count,)),
            validation is Ok && sample_rate_hz > 0 && samples@.len() > 0 ==> plannable(
                *options,
                sample_rate_hz,
                samples@.len() as int,
            ),
        ensures
            match result {
                Ok(plan) => {
                    &&& call_ensures(*canceled, (), false)
                    &&& sample_rate_hz > 0
                    &&& validation is Ok
                    &&& samples@.len() == 0 ==> plan@ == empty_plan::<T>(sample_rate_hz)
                    &&& samples@.len() > 0 ==> exists|made: Layout|
                        #[trigger] self.lays_out(
                            samples,
                            sample_rate_hz,
                            options,
                            energy_provider,
                            vad_provider,
                            canceled,
                            made,
                        ) && plan@ == finished(made, samples@, silence, sample_rate_hz, *options)
                            && self.reported(*report_dropped, made) && (made.packed matches Some(
                            packed,
                        ) ==> call_ensures(
                            admit_packed_samples,
                            (packed.processed_samples,),
                            Ok(()),
                        ) && plan@.processed_audio->Some_0.len() == packed.processed_samples)
                    &&& options.mode != LongFormMode::Off ==> slices::windows_within(
                        plan@.slices,
                        options.ceiling(sample_rate_hz),
                    )
                },
                Err(LongFormSlicePlanningError::PackedAudioAdmission(refusal)) => {
                    &&& call_ensures(*canceled, (), false)
                    &&& sample_rate_hz > 0
                    &&& validation is Ok
                    &&& samples@.len() > 0
                    &&& exists|made: Layout|
                        #[trigger] self.lays_out(
                            samples,
                            sample_rate_hz,
                            options,
                            energy_provider,
                            vad_provider,
                            canceled,
                            made,
                        ) && self.reported(*report_dropped, made) && made.packed is Some
                            && call_ensures(
                            admit_packed_samples,
                            (made.packed->Some_0.processed_samples,),
                            Err(refusal),
                        )
                },
                Err(LongFormSlicePlanningError::Planning(error)) => {
                    ||| error == LongFormSliceError::Canceled && call_ensures(*canceled, (), true)
                    ||| call_ensures(*canceled, (), false) && error
                        == LongFormSliceError::InvalidSampleRate && sample_rate_hz == 0
                    ||| call_ensures(*canceled, (), false) && sample_rate_hz > 0
                        && validation is Err && error == (LongFormSliceError::InvalidOptions {
                        reason: validation->Err_0,
                    })
                    ||| call_ensures(*canceled, (), false) && sample_rate_hz > 0
                        && validation is Ok && samples@.len() > 0 && self.fails_to_lay_out(
                        samples,
                        sample_rate_hz,
                        options,
                        energy_provider,
                        vad_provider,
                        canceled,
                        error,
                    )
                },
            },
            !call_ensures(*canceled, (), false) ==> result == Err::<
                LongFormSlicePlan<T>,
                LongFormSlicePlanningError<X>,
            >(LongFormSlicePlanningError::Planning(LongFormSliceError::Canceled)),
            !call_ensures(*canceled, (), true) && sample_rate_hz == 0 ==> result == Err::<
                LongFormSlicePlan<T>,
                LongFormSlicePlanningError<X>,
            >(LongFormSlicePlanningError::Planning(LongFormSliceError::InvalidSampleRate)),
            !call_ensures(*canceled, (), true) && sample_rate_hz > 0 && validation is Err ==> result
                == Err::<LongFormSlicePlan<T>, LongFormSlicePlanningError<X>>(
                LongFormSlicePlanningError::Planning(
                    LongFormSliceError::InvalidOptions { reason: validation->Err_0 },
                ),
            ),
            !call_ensures(*canceled, (), true) && sample_rate_hz > 0 && validation is Ok
                && samples@.len() == 0 ==> result is Ok,
    {
        if let Err(error) = check_planning_canceled(canceled) {
            return Err(LongFormSlicePlanningError::Planning(error));
        }
        if sample_rate_hz == 0 {
            return Err(
                LongFormSlicePlanningError::Planning(LongFormSliceError::InvalidSampleRate),
            );
        }
        if let Err(reason) = validation {
            return Err(
                LongFormSlicePlanningError::Planning(
                    LongFormSliceError::InvalidOptions { reason },
                ),
            );
        }
        if let Err(error) = check_planning_canceled(canceled) {
            return Err(LongFormSlicePlanningError::Planning(error));
        }
        if samples.len() == 0 {
            let plan = LongFormSlicePlan {
                sample_rate_hz,
                total_samples: 0,
                slices: Vec::new(),
                processed_audio: None,
                timeline: TimelineMap::identity(),
                stats: LongFormSliceStats::default(),
            };
            assert(plan@.provenance =~= Seq::empty());
            return Ok(plan);
        }
        let total_samples: usize = samples.len();
        let made: LongFormPlanningLayout = match self.lay_out(
            samples,
            sample_rate_hz,
            options,
            energy_provider,
            vad_provider,
            canceled,
        ) {
            Ok(made) => made,
            Err(error) => {
                return Err(LongFormSlicePlanningError::Planning(error));
            },
        };
        let ghost value = made@;
        proof {
            self.lemma_layouts_are_sound(
                samples,
                sample_rate_hz,
                options,
                energy_provider,
                vad_provider,
                canceled,
                value,
            );
        }
        if let Err(error) = check_planning_canceled(canceled) {
            return Err(LongFormSlicePlanningError::Planning(error));
        }
        if let Some(dropped) = self.dropped_audio(&made) {
            let unit: () = report_dropped(&dropped);
            assert(unit == ());
            assert(self.reports_on(dropped, value));
        }
        assert(self.reported(*report_dropped, value));
        if let Err(error) = check_planning_canceled(canceled) {
            return Err(LongFormSlicePlanningError::Planning(error));
        }
        let mut planned: Vec<AudioSlice> = made.slices;
        let mut processed_audio: Option<Vec<T>> = None;
        match made.packed_audio_plan {
            Some(packed) => {
                if let Err(error) = check_planning_canceled(canceled) {
                    return Err(LongFormSlicePlanningError::Planning(error));
                }
                let admission: Result<(), X> = admit_packed_samples(packed.processed_samples);
                match admission {
                    Err(refusal) => {
                        return Err(LongFormSlicePlanningError::PackedAudioAdmission(refusal));
                    },
                    Ok(unit) => {
                        assert(unit == ());
                    },
                }
                if let Err(error) = check_planning_canceled(canceled) {
                    return Err(LongFormSlicePlanningError::Planning(error));
                }
                proof {
                    packing::law_packed_audio_length(
                        samples@,
                        packed.spans@,
                        packed.spans.len() as int,
                        packed.seam_samples as int,
                        silence,
                    );
                }
                match materialize_packed_audio(samples, &packed, silence, canceled) {
                    Ok(audio) => {
                        processed_audio = Some(audio);
                    },
                    Err(error) => {
                        return Err(LongFormSlicePlanningError::Planning(error));
                    },
                }
            },
            None => {
                proof {
                    if options.mode != LongFormMode::Off {
                        slices::law_padding_respects_the_ceiling(
                            planned@,
                            total_samples as int,
                            options.padding_samples as int,
                            options.ceiling(sample_rate_hz),
                        );
                    }
                }
                apply_padding(
                    &mut planned,
                    total_samples,
                    options.padding_samples,
                    options.max_chunk_samples(sample_rate_hz),
                );
            },
        }
        let stats = LongFormSliceStats {
            chunk_count: planned.len(),
            skipped_silent_chunks: 0,
            duplicate_merge_count: 0,
            provenance: made.selection_provenance,
        };
        let plan = LongFormSlicePlan {
            sample_rate_hz,
            total_samples,
            slices: planned,
            processed_audio,
            timeline: made.timeline,
            stats,
        };
        assert(plan@ =~= finished(value, samples@, silence, sample_rate_hz, *options));
        Ok(plan)
    }
}

/// The answer of a request that nobody cancels.
pub fn never_canceled() -> (canceled: bool)
    ensures
        !canceled,
{
    false
}

/// Admits every packed timeline.
pub fn admit_every_timeline(packed_samples: usize) -> (admission: Result<(), ()>)
    ensures
        admission is Ok,
{
    Ok(())
}

/// Plans the slices of a recording, with no cancellation and no gate on packed audio.
pub fn plan_longform_slices<
    T: Copy,
    P: LongFormVadProvider<T>,
    Q: LongFormVadProvider<T>,
    R: Fn(&DroppedAudio),
    L: Fn(usize, usize) -> u32,
    O: Fn(&TimelineMap, usize) -> usize,
    B: Fn(usize, usize, usize) -> usize,
    E: Fn(&Vec<LongFormVadSlice>, usize, usize) -> usize,
    G: Fn(&Vec<LongFormVadSlice>, GapEdges, usize) -> usize,
    A: Fn(&Vec<LongFormVadSlice>, usize, usize) -> Option<AudibleWindow>,
    D: Fn(&Vec<LongFormVadSlice>, &Vec<LongFormVadSlice>, AudibleWindow) -> String,
>(
    samples: &[T],
    silence: T,
    sample_rate_hz: u32,
    options: &LongFormOptions,
    validation: Result<(), String>,
    measures: &RecordingMeasures<L, O, B, E, G, A, D>,
    energy_provider: &Q,
    vad_provider: Option<&P>,
    report_dropped: &R,
) -> (result: Result<LongFormSlicePlan<T>, LongFormSliceError>)
    requires
        measures.answers(),
        samples@.len() == measures.sample_count,
        forall|dropped: DroppedAudio| #[trigger] call_requires(*report_dropped, (&dropped,)),
        validation is Ok && sample_rate_hz > 0 && samples@.len() > 0 ==> plannable(
            *options,
            sample_rate_hz,
            samples@.len() as int,
        ),
    ensures
        match result {
            Ok(plan) => {
                &&& sample_rate_hz > 0
                &&& validation is Ok
                &&& samples@.len() == 0 ==> plan@ == empty_plan::<T>(sample_rate_hz)
                &&& samples@.len() > 0 ==> exists|made: Layout|
                    #[trigger] measures.lays_out(
                        samples,
                        sample_rate_hz,
                        options,
                        energy_provider,
                        vad_provider,
                        &never_canceled,
                        made,
                    ) && plan@ == finished(made, samples@, silence, sample_rate_hz, *options)
                        && measures.reported(*report_dropped, made)
                &&& options.mode != LongFormMode::Off ==> slices::windows_within(
                    plan@.slices,
                    options.ceiling(sample_rate_hz),
                )
            },
            Err(error) => {
                ||| error == LongFormSliceError::InvalidSampleRate && sample_rate_hz == 0
                ||| sample_rate_hz > 0 && validation is Err && error
                    == (LongFormSliceError::InvalidOptions { reason: validation->Err_0 })
                ||| sample_rate_hz > 0 && validation is Ok && samples@.len() > 0
                    && measures.fails_to_lay_out(
                    samples,
                    sample_rate_hz,
                    options,
                    energy_provider,
                    vad_provider,
                    &never_canceled,
                    error,
                )
            },
        },
{
    match measures.plan_longform_slices_with_materialization_gate(
        samples,
        silence,
        sample_rate_hz,
        options,
        validation,
        energy_provider,
        vad_provider,
        &never_canceled,
        report_dropped,
        admit_every_timeline,
    ) {
        Ok(plan) => Ok(plan),
        Err(LongFormSlicePlanningError::Planning(error)) => Err(error),
        Err(LongFormSlicePlanningError::PackedAudioAdmission(_)) => vstd::pervasive::unreached(),
    }
}

/// A finished plan keeps the slices of its layout, counts them, and says whose recording they
/// are of. On the recording's own timeline the windows are widened round content that stays,
/// and there is no other audio; on a packed one the windows stay as they are, and the audio
/// holds every kept span, sample for sample, where the timeline has it.
pub proof fn law_finished_plans_keep_their_layout<T>(
    made: Layout,
    samples: Seq<T>,
    silence: T,
    rate: u32,
    options: LongFormOptions,
    i: int,
    span: int,
    offset: int,
)
    requires
        made.processed_audio_samples is None,
        made.slices.len() <= usize::MAX,
        samples.len() <= usize::MAX,
    ensures
        ({
            let plan = finished(made, samples, silence, rate, options);
            &&& plan.sample_rate_hz == rate
            &&& plan.total_samples == samples.len()
            &&& plan.slices.len() == made.slices.len()
            &&& plan.chunk_count == made.slices.len()
            &&& plan.skipped_silent_chunks == 0
            &&& plan.duplicate_merge_count == 0
            &&& plan.anchors == made.anchors
            &&& plan.provenance == made.provenance
            &&& plan.processed_audio is Some <==> made.packed is Some
            &&& made.packed is Some ==> plan.slices == made.slices
            &&& made.packed is None && 0 <= i < made.slices.len() ==> {
                &&& plan.slices[i].content_start_sample == made.slices[i].content_start_sample
                &&& plan.slices[i].content_end_sample == made.slices[i].content_end_sample
                &&& plan.slices[i].kind == made.slices[i].kind
                &&& plan.slices[i].index == made.slices[i].index
                &&& made.slices[i].content_duration() + 2 * options.padding_samples
                    <= options.ceiling(rate) && made.slices[i].content_start_sample
                    >= options.padding_samples && made.slices[i].content_end_sample
                    + options.padding_samples <= samples.len() ==> {
                    &&& plan.slices[i].start_sample + options.padding_samples
                        == made.slices[i].content_start_sample
                    &&& plan.slices[i].end_sample == made.slices[i].content_end_sample
                        + options.padding_samples
                }
            }
            &&& made.packed matches Some(packed) ==> spans::all_inside(
                packed.spans,
                samples.len() as int,
            ) && 0 <= span < packed.spans.len() && 0 <= offset < packed.spans[span].end_sample
                - packed.spans[span].start_sample && packing::packed(
                packed.spans,
                samples.len() as int,
                packed.seam_samples as int,
            ).cursor <= usize::MAX ==> plan.processed_audio->Some_0[packing::packed(
                packed.spans,
                samples.len() as int,
                packed.seam_samples as int,
            ).processed[span].start_sample + offset] == samples[packed.spans[span].start_sample
                + offset]
        }),
{
    if let Some(packed) = made.packed {
        if spans::all_inside(packed.spans, samples.len() as int) && 0 <= span < packed.spans.len()
            && 0 <= offset < packed.spans[span].end_sample - packed.spans[span].start_sample
            && packing::packed(
            packed.spans,
            samples.len() as int,
            packed.seam_samples as int,
        ).cursor <= usize::MAX {
            packing::law_packed_samples_are_copies(
                samples,
                packed.spans,
                packed.spans.len() as int,
                packed.seam_samples as int,
                silence,
                span,
                offset,
            );
        }
    }
}

/// A dropped range is reported as audible exactly where a window of it is, and with that
/// window.
pub proof fn law_every_audible_drop_is_reported(
    kept: Seq<LongFormVadSlice>,
    dropped: Seq<LongFormVadSlice>,
    count: int,
    acoustics: Acoustics,
    range: LongFormVadSlice,
    window: AudibleWindow,
)
    requires
        0 <= count <= dropped.len(),
    ensures
        audible_drops(kept, dropped, count, acoustics).contains((range, window)) <==> (
        acoustics.audible)(kept, range.start_sample as int, range.end_sample as int) == Some(
            window,
        ) && exists|i: int| 0 <= i < count && #[trigger] dropped[i] == range,
    decreases count,
{
    let found = audible_drops(kept, dropped, count, acoustics);
    if count > 0 {
        law_every_audible_drop_is_reported(
            kept,
            dropped,
            count - 1,
            acoustics,
            range,
            window,
        );
        let before = audible_drops(kept, dropped, count - 1, acoustics);
        let last = dropped[count - 1];
        let heard = (acoustics.audible)(kept, last.start_sample as int, last.end_sample as int);
        if before.contains((range, window)) {
            let k = choose|k: int| 0 <= k < before.len() && before[k] == (range, window);
            assert(found[k] == (range, window));
        }
        if found.contains((range, window)) {
            let k = choose|k: int| 0 <= k < found.len() && found[k] == (range, window);
            if k < before.len() {
                assert(before[k] == (range, window));
            } else {
                assert(dropped[count - 1] == range);
            }
        }
        if last == range && heard == Some(window) {
            assert(found[before.len() as int] == (range, window));
        }
        if exists|i: int| 0 <= i < count && #[trigger] dropped[i] == range {
            let i = choose|i: int| 0 <= i < count && #[trigger] dropped[i] == range;
            if i < count - 1 {
                assert(dropped[i] == range);
            }
        }
    }
}

/// Settings with a least chunk of a sample or more can be planned in every mode, as long as
/// their ceiling is a duration that the machine can count.
pub proof fn law_ordinary_settings_can_be_planned(
    options: LongFormOptions,
    rate: u32,
    total: int,
)
    requires
        options.has_ceiling(rate),
        options.min_chunk_samples >= 1,
    ensures
        plannable(options, rate, total),
{
    crate::longform::duration::law_window_limit_is_the_smallest_cover(
        options.max_chunk_seconds_bits,
        rate as int,
        0,
    );
}

impl<
    L: Fn(usize, usize) -> u32,
    O: Fn(&TimelineMap, usize) -> usize,
    B: Fn(usize, usize, usize) -> usize,
    E: Fn(&Vec<LongFormVadSlice>, usize, usize) -> usize,
    G: Fn(&Vec<LongFormVadSlice>, GapEdges, usize) -> usize,
    A: Fn(&Vec<LongFormVadSlice>, usize, usize) -> Option<AudibleWindow>,
    D: Fn(&Vec<LongFormVadSlice>, &Vec<LongFormVadSlice>, AudibleWindow) -> String,
> RecordingMeasures<L, O, B, E, G, A, D> {
    /// Each mode cuts in its own way. Off takes the recording whole; fixed and energy cover it
    /// with windows of their kind; without a detector voice activity gives energy windows,
    /// and only where the settings allow it; and automatic planning takes a recording whole
    /// that fits a chunk and the ceiling.
    pub proof fn law_modes_cut_in_their_own_way<
        T,
        P: LongFormVadProvider<T>,
        Q: LongFormVadProvider<T>,
        C: Fn() -> bool,
    >(
        &self,
        samples: &[T],
        rate: u32,
        options: &LongFormOptions,
        energy_provider: &Q,
        vad_provider: Option<&P>,
        canceled: &C,
        made: Layout,
    )
        requires
            plannable(*options, rate, self.sample_count as int),
            self.sample_count > 0,
            options.chunk_samples >= 1,
            self.lays_out(
                samples,
                rate,
                options,
                energy_provider,
                vad_provider,
                canceled,
                made,
            ),
        ensures
            ({
                let whole = made.slices.len() == 1 && made.slices[0].kind == AudioSliceKind::Full
                    && made.slices[0].index == 0 && made.slices[0].content_start_sample == 0
                    && made.slices[0].content_end_sample == self.sample_count
                    && made.slices[0].start_sample == 0 && made.slices[0].end_sample
                    == self.sample_count;
                let total = self.sample_count as int;
                let ceiling = options.ceiling(rate);
                let nothing = Seq::<AudioSlice>::empty();
                &&& options.mode != LongFormMode::Auto ==> !made.is_packed()
                &&& options.mode == LongFormMode::Off ==> whole
                &&& options.mode == LongFormMode::Fixed ==> windows::extends_over(
                    nothing,
                    made.slices,
                    AudioSliceKind::Fixed,
                    0,
                    total,
                    ceiling,
                )
                &&& options.mode == LongFormMode::Energy ==> windows::extends_over(
                    nothing,
                    made.slices,
                    AudioSliceKind::Energy,
                    0,
                    total,
                    ceiling,
                )
                &&& options.mode == LongFormMode::Vad && vad_provider is None
                    ==> options.fallback_to_energy_when_vad_unavailable && windows::extends_over(
                    nothing,
                    made.slices,
                    AudioSliceKind::Energy,
                    0,
                    total,
                    ceiling,
                )
                &&& options.mode == LongFormMode::Auto && total <= options.chunk_samples && total
                    <= ceiling ==> whole && !made.is_packed()
            }),
    {
        let ceiling = options.ceiling(rate);
        let total = self.sample_count as int;
        crate::longform::duration::law_window_limit_is_the_smallest_cover(
            options.max_chunk_seconds_bits,
            rate as int,
            0,
        );
        if options.mode == LongFormMode::Fixed {
            windows::law_fixed_slices_cover_the_recording(total, *options, ceiling);
        }
        if options.mode == LongFormMode::Energy || (options.mode == LongFormMode::Vad
            && vad_provider is None) {
            windows::law_energy_slices_cover_the_stretch(
                Seq::empty(),
                self.acoustics().levels,
                total,
                0,
                total,
                *options,
                ceiling,
            );
        }
    }

    /// Automatic planning of a recording that does not fit one chunk asks a further detector
    /// exactly where it does not decide by energy, and lays out what the detectors called
    /// speech.
    pub proof fn law_a_detector_by_energy_is_not_asked_again<
        T,
        P: LongFormVadProvider<T>,
        Q: LongFormVadProvider<T>,
        C: Fn() -> bool,
    >(
        &self,
        samples: &[T],
        rate: u32,
        options: &LongFormOptions,
        energy_provider: &Q,
        detector: &P,
        canceled: &C,
        made: Layout,
        kind: LongFormVadProviderKind,
    ) -> (speech: (Vec<LongFormVadSlice>, Option<Vec<LongFormVadSlice>>))
        requires
            options.mode == LongFormMode::Auto,
            self.sample_count > options.chunk_samples || self.sample_count > options.ceiling(rate),
            forall|said: LongFormVadProviderKind| #[trigger]
                call_ensures(P::provider_kind, (detector,), said) ==> said == kind,
            self.lays_out(
                samples,
                rate,
                options,
                energy_provider,
                Some(detector),
                canceled,
                made,
            ),
        ensures
            call_ensures(
                Q::compute_speech_slices_cancellable::<C>,
                (energy_provider, samples, rate, options, canceled),
                Ok(speech.0),
            ),
            kind == LongFormVadProviderKind::EnergyLike ==> speech.1 is None && made
                == planner::auto_layout(
                speech.0@,
                None,
                rate as int,
                *options,
                options.ceiling(rate),
                self.acoustics(),
            ),
            kind == LongFormVadProviderKind::Custom ==> speech.1 is Some && call_ensures(
                P::compute_speech_slices_cancellable::<C>,
                (detector, samples, rate, options, canceled),
                Ok(speech.1->0),
            ) && made == planner::auto_layout(
                speech.0@,
                Some(speech.1->0@),
                rate as int,
                *options,
                options.ceiling(rate),
                self.acoustics(),
            ),
    {
        let (energy_speech, vad_speech) = choose|
            energy_speech: Vec<LongFormVadSlice>,
            vad_speech: Option<Vec<LongFormVadSlice>>,
        |
            #![trigger
                provider::may_reply(
                    energy_provider,
                    samples,
                    rate,
                    options,
                    canceled,
                    Ok(energy_speech),
                ),
                detector_answers(
                    samples,
                    rate,
                    options,
                    Some(detector),
                    canceled,
                    vad_speech,
                )]
            provider::may_reply(
                energy_provider,
                samples,
                rate,
                options,
                canceled,
                Ok(energy_speech),
            ) && detector_answers(
                samples,
                rate,
                options,
                Some(detector),
                canceled,
                vad_speech,
            ) && made == planner::auto_layout(
                energy_speech@,
                match vad_speech {
                    Some(speech) => Some(speech@),
                    None => None,
                },
                rate as int,
                *options,
                options.ceiling(rate),
                self.acoustics(),
            );
        (energy_speech, vad_speech)
    }

    /// Voice-activity planning with a detector lays out what that detector called speech.
    pub proof fn law_voice_activity_follows_its_detector<
        T,
        P: LongFormVadProvider<T>,
        Q: LongFormVadProvider<T>,
        C: Fn() -> bool,
    >(
        &self,
        samples: &[T],
        rate: u32,
        options: &LongFormOptions,
        energy_provider: &Q,
        detector: &P,
        canceled: &C,
        made: Layout,
    ) -> (speech: Vec<LongFormVadSlice>)
        requires
            options.mode == LongFormMode::Vad,
            self.lays_out(
                samples,
                rate,
                options,
                energy_provider,
                Some(detector),
                canceled,
                made,
            ),
        ensures
            call_ensures(
                P::compute_speech_slices_cancellable::<C>,
                (detector, samples, rate, options, canceled),
                Ok(speech),
            ),
            made.slices == planner::vad_plan(
                speech@,
                *options,
                options.ceiling(rate),
                self.acoustics(),
            ),
    {
        choose|speech: Vec<LongFormVadSlice>|
            #[trigger] provider::may_reply(
                detector,
                samples,
                rate,
                options,
                canceled,
                Ok(speech),
            ) && made.slices == planner::vad_plan(
                speech@,
                *options,
                options.ceiling(rate),
                self.acoustics(),
            )
    }

    /// Only what a detector decides can fail: planning without one does not, nor does the
    /// automatic planning of a recording that fits one chunk. A detector is missing only where
    /// voice activity is asked for, there is none, and the settings allow nothing else; and
    /// what failed is told as the detector told it.
    pub proof fn law_only_detectors_fail<
        T,
        P: LongFormVadProvider<T>,
        Q: LongFormVadProvider<T>,
        C: Fn() -> bool,
    >(
        &self,
        samples: &[T],
        rate: u32,
        options: &LongFormOptions,
        energy_provider: &Q,
        vad_provider: Option<&P>,
        canceled: &C,
        error: LongFormSliceError,
    )
        requires
            self.fails_to_lay_out(
                samples,
                rate,
                options,
                energy_provider,
                vad_provider,
                canceled,
                error,
            ),
        ensures
            options.mode == LongFormMode::Vad || options.mode == LongFormMode::Auto,
            options.mode == LongFormMode::Auto ==> self.sample_count > options.chunk_samples
                || self.sample_count > options.ceiling(rate),
            error == LongFormSliceError::VadUnavailable ==> options.mode == LongFormMode::Vad
                && vad_provider is None && !options.fallback_to_energy_when_vad_unavailable,
            error != LongFormSliceError::InvalidSampleRate,
            error !is InvalidOptions,
            options.mode == LongFormMode::Vad ==> error == LongFormSliceError::VadUnavailable || (
            vad_provider is Some && fails_so(
                vad_provider->Some_0,
                samples,
                rate,
                options,
                canceled,
                error,
            )),
            options.mode == LongFormMode::Auto ==> fails_so(
                energy_provider,
                samples,
                rate,
                options,
                canceled,
                error,
            ) || (vad_provider is Some && fails_so(
                vad_provider->Some_0,
                samples,
                rate,
                options,
                canceled,
                error,
            )),
    {
    }

    /// A plan that drops some sample has told the reporter what it keeps and what it drops, and
    /// which of the dropped ranges are audible.
    pub proof fn law_what_is_dropped_is_reported<R: Fn(&DroppedAudio)>(
        &self,
        reporter: R,
        made: Layout,
        i: int,
    ) -> (report: DroppedAudio)
        requires
            self.reported(reporter, made),
            0 <= i < made.dropped(self.sample_count as int).len(),
            made.dropped(self.sample_count as int)[i].start_sample < made.dropped(
                self.sample_count as int,
            )[i].end_sample,
        ensures
            call_ensures(reporter, (&report,), ()),
            report.kept@ == made.kept(self.sample_count as int),
            report.dropped@ == made.dropped(self.sample_count as int),
            forall|range: LongFormVadSlice, window: AudibleWindow| #[trigger]
                report.audible@.contains((range, window)) <==> report.dropped@.contains(range) && (
                self.acoustics().audible)(
                    report.kept@,
                    range.start_sample as int,
                    range.end_sample as int,
                ) == Some(window),
    {
        let dropped = made.dropped(self.sample_count as int);
        assert(dropped[i].nonempty());
        let report = choose|report: DroppedAudio|
            #[trigger] self.reports_on(report, made) && call_ensures(reporter, (&report,), ());
        assert forall|range: LongFormVadSlice, window: AudibleWindow| #[trigger]
            report.audible@.contains((range, window)) <==> report.dropped@.contains(range) && (
            self.acoustics().audible)(
                report.kept@,
                range.start_sample as int,
                range.end_sample as int,
            ) == Some(window) by {
            law_every_audible_drop_is_reported(
                report.kept@,
                dropped,
                dropped.len() as int,
                self.acoustics(),
                range,
                window,
            );
            if dropped.contains(range) {
                let k = choose|k: int| 0 <= k < dropped.len() && dropped[k] == range;
                assert(dropped[k] == range);
            }
        }
        report
    }
}

/// Whether a detector that was asked about a recording may have failed so.
pub open spec fn fails_so<T, P: LongFormVadProvider<T>, C: Fn() -> bool>(
    detector: &P,
    samples: &[T],
    rate: u32,
    options: &LongFormOptions,
    canceled: &C,
    error: LongFormSliceError,
) -> bool {
    match error {
        LongFormSliceError::Canceled => call_ensures(
            P::compute_speech_slices_cancellable::<C>,
            (detector, samples, rate, options, canceled),
            Err(LongFormVadProviderError::Canceled),
        ),
        LongFormSliceError::VadFailed { reason } => call_ensures(
            P::compute_speech_slices_cancellable::<C>,
            (detector, samples, rate, options, canceled),
            Err(LongFormVadProviderError::Failed { reason }),
        ),
        _ => false,
    }
}

/// With a ceiling that the machine can count, a recording can always be taken whole or cut at
/// fixed places, and so can one be planned automatically that fits one chunk. Energy windows
/// need a least chunk, or a chunk that the search stays inside of, if the ceiling is no more
/// than a sample.
pub proof fn law_settings_that_can_be_planned(options: LongFormOptions, rate: u32, total: int)
    requires
        options.has_ceiling(rate),
    ensures
        options.mode == LongFormMode::Off || options.mode == LongFormMode::Fixed ==> plannable(
            options,
            rate,
            total,
        ),
        options.mode == LongFormMode::Auto && total <= options.chunk_samples && total
            <= options.ceiling(rate) ==> plannable(options, rate, total),
        options.mode == LongFormMode::Energy ==> (plannable(options, rate, total) <==> (
        options.min_chunk_samples >= 1 || (options.chunk_samples >= 1 && (options.ceiling(rate)
            >= 2 || options.search_samples < options.chunk_samples)))),
        options.mode == LongFormMode::Vad && options.ceiling(rate) >= 2 && (options.chunk_samples
            >= 1 || !(options.fallback_to_energy_when_vad_empty
            || options.fallback_to_energy_when_vad_unavailable)) ==> plannable(
            options,
            rate,
            total,
        ),
        options.mode == LongFormMode::Auto && options.ceiling(rate) >= 2 && options.chunk_samples
            >= 1 ==> plannable(options, rate, total),
{
    crate::longform::duration::law_window_limit_is_the_smallest_cover(
        options.max_chunk_seconds_bits,
        rate as int,
        0,
    );
}

/// What a request that was planned went through: it was not canceled, had a rate and valid
/// settings, and its packed audio, if it has any, was admitted at the very length that it has.
/// A request that was turned away for its packed audio was turned away by the one who admits.
pub proof fn law_packed_audio_is_admitted_first<
    T: Copy,
    P: LongFormVadProvider<T>,
    Q: LongFormVadProvider<T>,
    C: Fn() -> bool,
    R: Fn(&DroppedAudio),
    X,
    F: FnOnce(usize) -> Result<(), X>,
    L: Fn(usize, usize) -> u32,
    O: Fn(&TimelineMap, usize) -> usize,
    B: Fn(usize, usize, usize) -> usize,
    E: Fn(&Vec<LongFormVadSlice>, usize, usize) -> usize,
    G: Fn(&Vec<LongFormVadSlice>, GapEdges, usize) -> usize,
    A: Fn(&Vec<LongFormVadSlice>, usize, usize) -> Option<AudibleWindow>,
    D: Fn(&Vec<LongFormVadSlice>, &Vec<LongFormVadSlice>, AudibleWindow) -> String,
>(
    measures: &RecordingMeasures<L, O, B, E, G, A, D>,
    samples: &[T],
    silence: T,
    rate: u32,
    options: &LongFormOptions,
    validation: Result<(), String>,
    energy_provider: &Q,
    vad_provider: Option<&P>,
    canceled: &C,
    report_dropped: &R,
    admission: F,
    result: Result<LongFormSlicePlan<T>, LongFormSlicePlanningError<X>>,
)
    requires
        measures.answers(),
        samples@.len() == measures.sample_count,
        plannable(*options, rate, samples@.len() as int),
        call_ensures(
            RecordingMeasures::<
                L,
                O,
                B,
                E,
                G,
                A,
                D,
            >::plan_longform_slices_with_materialization_gate::<T, P, Q, C, R, X, F>,
            (
                measures,
                samples,
                silence,
                rate,
                options,
                validation,
                energy_provider,
                vad_provider,
                canceled,
                report_dropped,
                admission,
            ),
            result,
        ),
    ensures
        result matches Ok(plan) ==> {
            &&& call_ensures(*canceled, (), false)
            &&& rate > 0 && validation is Ok
            &&& plan.sample_rate_hz == rate
            &&& plan.total_samples == samples@.len()
            &&& plan.stats.chunk_count == plan.slices@.len()
            &&& samples@.len() == 0 ==> plan.slices@.len() == 0
            &&& plan.processed_audio matches Some(audio) ==> call_ensures(
                admission,
                (audio@.len() as usize,),
                Ok(()),
            )
        },
        result matches Err(LongFormSlicePlanningError::PackedAudioAdmission(refusal)) ==> exists|
            count: usize,
        | #[trigger] call_ensures(admission, (count,), Err(refusal)),
        !call_ensures(*canceled, (), false) ==> result == Err::<
            LongFormSlicePlan<T>,
            LongFormSlicePlanningError<X>,
        >(LongFormSlicePlanningError::Planning(LongFormSliceError::Canceled)),
        validation is Err ==> result is Err,
{
    if let Ok(plan) = result {
        if samples@.len() > 0 {
            let made = choose|made: Layout|
                #[trigger] measures.lays_out(
                    samples,
                    rate,
                    options,
                    energy_provider,
                    vad_provider,
                    canceled,
                    made,
                ) && plan@ == finished(made, samples@, silence, rate, *options)
                    && measures.reported(*report_dropped, made) && (made.packed matches Some(
                    packed,
                ) ==> call_ensures(admission, (packed.processed_samples,), Ok(()))
                    && plan@.processed_audio->Some_0.len() == packed.processed_samples);
            assert(plan.slices@.len() == plan.slices.len());
            assert(plan@.slices.len() == made.slices.len());
            if let Some(audio) = plan.processed_audio {
                assert(plan@.processed_audio == Some(audio@));
                assert(made.packed is Some);
                assert(audio@.len() == audio.len());
            }
        }
    }
}

} // verus!
