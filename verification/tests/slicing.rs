//! Cutting long recordings into slices.

use std::cell::Cell;
use std::rc::Rc;

use openasr_core::longform::duration::{executor_window_limit_samples, ExecutorWindowLimitError};
use openasr_core::longform::errors::{
    LongFormSliceError, LongFormSlicePlanningError, LongFormVadProviderError,
};
use openasr_core::longform::layout::{
    candidate_kept_and_dropped_ranges, layout_uses_packed_timeline,
    plan_packed_layout_from_speech_spans, plan_vad_slices_from_speech_spans,
    LongFormPlanningLayout,
};
use openasr_core::longform::measures::{AudibleWindow, GapEdges, RecordingMeasures};
use openasr_core::longform::options::{LongFormMode, LongFormOptions};
use openasr_core::longform::packing::{
    pack_processed_spans_into_windows, PackedAudioMaterializationPlan,
};
use openasr_core::longform::plan::{
    can_plan, plan_longform_slices, DroppedAudio, LongFormBenchmarkMetadata, LongFormSlicePlan,
};
use openasr_core::longform::provider::{LongFormVadProvider, LongFormVadProviderKind};
use openasr_core::longform::scoring::{
    estimate_layout_processed_samples, estimate_seam_penalty, AutoPlanCandidate,
};
use openasr_core::longform::selection::{
    apply_marginal_packed_penalties, apply_marginal_vad_penalties,
    apply_material_vad_boundary_credits, prune_dominated_vad_candidates,
    sort_auto_plan_candidates,
};
use openasr_core::longform::slices::{AudioSlice, AudioSliceKind, LongFormVadSlice};
use openasr_core::longform::timeline::TimelineMap;
use openasr_core::longform::windows::plan_energy_slices;

const RATE: u32 = 16_000;

// ---------------------------------------------------------------------------
// Settings in seconds
// ---------------------------------------------------------------------------

fn seconds_to_samples(seconds: f32, sample_rate_hz: u32) -> usize {
    ((seconds.max(0.0)) * sample_rate_hz as f32).round() as usize
}

#[derive(Clone)]
struct Settings {
    mode: LongFormMode,
    chunk_seconds: f32,
    overlap_seconds: f32,
    min_chunk_seconds: f32,
    padding_seconds: f32,
    energy_split_search_seconds: f32,
    energy_silence_threshold_db: f32,
    max_chunk_seconds: f32,
    min_silence_duration_ms: u32,
    fallback_to_energy_when_vad_unavailable: bool,
}

fn options_with_mode(mode: LongFormMode) -> Settings {
    Settings {
        mode,
        chunk_seconds: 30.0,
        overlap_seconds: 0.5,
        min_chunk_seconds: 1.0,
        padding_seconds: 0.1,
        energy_split_search_seconds: 4.0,
        energy_silence_threshold_db: -38.0,
        max_chunk_seconds: 60.0,
        min_silence_duration_ms: 450,
        fallback_to_energy_when_vad_unavailable: true,
    }
}

impl Settings {
    fn coalesce_gap_seconds(&self) -> f32 {
        (self.min_silence_duration_ms as f32 / 1000.0)
            .max((self.chunk_seconds * 0.10).clamp(0.5, 3.0))
            .max(self.padding_seconds * 2.0)
            .max(self.overlap_seconds * 2.0)
    }

    fn at(&self, rate: u32) -> LongFormOptions {
        let samples = |seconds: f32| seconds_to_samples(seconds, rate);
        LongFormOptions {
            mode: self.mode,
            chunk_samples: samples(self.chunk_seconds),
            overlap_samples: samples(self.overlap_seconds),
            min_chunk_samples: samples(self.min_chunk_seconds),
            padding_samples: samples(self.padding_seconds),
            search_samples: samples(self.energy_split_search_seconds),
            max_chunk_seconds_bits: self.max_chunk_seconds.to_bits(),
            silence_level: 10.0_f32
                .powf(self.energy_silence_threshold_db / 20.0)
                .to_bits(),
            gap_bridge_samples: samples(self.coalesce_gap_seconds()),
            seam_samples: samples(self.padding_seconds.clamp(0.05, 0.20)),
            boundary_window_samples: samples(0.20).max(samples(self.overlap_seconds.min(0.20))),
            edge_window_samples: samples(0.15),
            seam_floor_samples: samples(0.10),
            one_second_samples: samples(1.0),
            two_second_samples: samples(2.0),
            fallback_to_energy_when_vad_unavailable: self.fallback_to_energy_when_vad_unavailable,
            fallback_to_energy_when_vad_empty: true,
            carry_prompt_across_slices: true,
            max_context_tokens: 224,
        }
    }
}

// ---------------------------------------------------------------------------
// Loudness
// ---------------------------------------------------------------------------

fn rms(samples: &[f32]) -> f32 {
    if samples.is_empty() {
        return 0.0;
    }
    let mut sum = 0.0_f64;
    for sample in samples {
        let value = *sample as f64;
        sum += value * value;
    }
    (sum / samples.len() as f64).sqrt() as f32
}

fn dbfs(level: f32) -> f32 {
    20.0 * level.max(1.0e-9).log10()
}

const AUDIBILITY_WINDOW: usize = 8_000;

/// What counts as audible next to the speech that a plan keeps: anything within thirty
/// decibels of its louder windows.
struct Reference {
    speech_level: f32,
    threshold: f32,
}

impl Reference {
    fn beside(samples: &[f32], kept: &[LongFormVadSlice]) -> Self {
        let mut levels = Vec::new();
        for range in kept {
            let mut at = range.start_sample.min(samples.len());
            let end = range.end_sample.min(samples.len());
            while at < end {
                let next = (at + AUDIBILITY_WINDOW).min(end);
                levels.push(rms(&samples[at..next]));
                at = next;
            }
        }
        levels.sort_by(f32::total_cmp);
        let speech_level = match levels.len() {
            0 => 0.0,
            count => levels[(count * 9 / 10).min(count - 1)],
        };
        Reference {
            speech_level,
            threshold: (speech_level * 10.0_f32.powf(-30.0 / 20.0)).max(5.0e-4),
        }
    }

    fn excess_ratio(&self, level: f32) -> f32 {
        if level <= self.threshold {
            0.0
        } else {
            (level - self.threshold) / self.speech_level.max(self.threshold)
        }
    }
}

fn clipped(samples: &[f32], start: usize, end: usize) -> &[f32] {
    let end = end.min(samples.len());
    &samples[start.min(end)..end]
}

fn original_sample(timeline: &TimelineMap, processed: usize) -> usize {
    let anchors = &timeline.anchors;
    let Some(first) = anchors.first() else {
        return processed;
    };
    if processed <= first.processed_sample {
        return first.original_sample;
    }
    for pair in anchors.windows(2) {
        let (from, to) = (pair[0], pair[1]);
        if processed <= to.processed_sample {
            let width = to.processed_sample - from.processed_sample;
            if width == 0 {
                return to.original_sample;
            }
            let share = (processed - from.processed_sample) as f64 / width as f64;
            let reach = to.original_sample as f64 - from.original_sample as f64;
            return (from.original_sample as f64 + share * reach).round() as usize;
        }
    }
    anchors[anchors.len() - 1].original_sample
}

type Kept = Vec<LongFormVadSlice>;

fn measures_of(
    samples: &[f32],
    sample_count: usize,
) -> RecordingMeasures<
    impl Fn(usize, usize) -> u32 + '_,
    impl Fn(&TimelineMap, usize) -> usize + '_,
    impl Fn(usize, usize, usize) -> usize + '_,
    impl Fn(&Kept, usize, usize) -> usize + '_,
    impl Fn(&Kept, GapEdges, usize) -> usize + '_,
    impl Fn(&Kept, usize, usize) -> Option<AudibleWindow> + '_,
    impl Fn(&Kept, &Kept, AudibleWindow) -> String + '_,
> {
    RecordingMeasures {
        sample_count,
        meter: move |start: usize, end: usize| rms(clipped(samples, start, end)).to_bits(),
        mapper: original_sample,
        boundary_cost: move |start: usize, end: usize, scale: usize| {
            (rms(clipped(samples, start, end)) * scale as f32).round() as usize
        },
        elision_cost: move |kept: &Kept, start: usize, end: usize| {
            let reference = Reference::beside(samples, kept);
            let gap = clipped(samples, start, end);
            (reference.excess_ratio(rms(gap)) * gap.len() as f32).round() as usize
        },
        edge_cost: move |kept: &Kept, edges: GapEdges, scale: usize| {
            let reference = Reference::beside(samples, kept);
            let excess = |edge: LongFormVadSlice| {
                reference.excess_ratio(rms(clipped(samples, edge.start_sample, edge.end_sample)))
            };
            ((excess(edges.left) + excess(edges.right)) * scale as f32).round() as usize
        },
        audible_window: move |kept: &Kept, start: usize, end: usize| {
            let reference = Reference::beside(samples, kept);
            let mut at = start;
            while at < end {
                let next = (at + AUDIBILITY_WINDOW).min(end);
                let level = rms(clipped(samples, at, next));
                if level > reference.threshold {
                    return Some(AudibleWindow {
                        start_sample: at,
                        end_sample: next,
                        level: level.to_bits(),
                    });
                }
                at = next;
            }
            None
        },
        drop_evidence: move |kept: &Kept, dropped: &Kept, window: AudibleWindow| {
            let reference = Reference::beside(samples, kept);
            let seconds = |value: usize| value as f32 / RATE as f32;
            let total: f32 = dropped
                .iter()
                .map(|range| seconds(range.end_sample.saturating_sub(range.start_sample)))
                .sum();
            format!(
                "dropped_total_s={total:.2}:audible_window_s={:.2}-{:.2}:peak_dbfs={:.1}:audible_threshold_dbfs={:.1}",
                seconds(window.start_sample),
                seconds(window.end_sample),
                dbfs(f32::from_bits(window.level)),
                dbfs(reference.threshold),
            )
        },
    }
}

// ---------------------------------------------------------------------------
// Detectors
// ---------------------------------------------------------------------------

/// Calls every frame above the configured silence level speech.
struct EnergyVad;

impl LongFormVadProvider<f32> for EnergyVad {
    fn provider_kind(&self) -> LongFormVadProviderKind {
        LongFormVadProviderKind::EnergyLike
    }

    fn compute_speech_slices(
        &self,
        samples: &[f32],
        sample_rate_hz: u32,
        options: &LongFormOptions,
    ) -> Result<Vec<LongFormVadSlice>, String> {
        let frame = sample_rate_hz as usize / 50;
        let least_pause = sample_rate_hz as usize * 45 / 100;
        let threshold = f32::from_bits(options.silence_level);
        let mut spans: Vec<LongFormVadSlice> = Vec::new();
        let mut at = 0;
        while at < samples.len() {
            let next = (at + frame).min(samples.len());
            if rms(&samples[at..next]) > threshold {
                match spans.last_mut() {
                    Some(last) if at - last.end_sample < least_pause => last.end_sample = next,
                    _ => spans.push(span(at, next)),
                }
            }
            at = next;
        }
        Ok(spans)
    }
}

/// Finds given spans in any recording.
struct Spans(Vec<LongFormVadSlice>);

impl LongFormVadProvider<f32> for Spans {
    fn compute_speech_slices(
        &self,
        _samples: &[f32],
        _sample_rate_hz: u32,
        _options: &LongFormOptions,
    ) -> Result<Vec<LongFormVadSlice>, String> {
        Ok(self.0.clone())
    }
}

/// A leading and a trailing burst round a silent middle.
struct FixedVadProvider;

impl LongFormVadProvider<f32> for FixedVadProvider {
    fn compute_speech_slices(
        &self,
        samples: &[f32],
        _sample_rate_hz: u32,
        _options: &LongFormOptions,
    ) -> Result<Vec<LongFormVadSlice>, String> {
        let leading_end = samples.len().min(16_000);
        let mut spans = vec![span(0, leading_end)];
        if samples.len() > 32_000 {
            spans.push(span(samples.len() - 16_000, samples.len()));
        }
        Ok(spans)
    }
}

const NO_VAD: Option<&FixedVadProvider> = None;

fn span(start_sample: usize, end_sample: usize) -> LongFormVadSlice {
    LongFormVadSlice {
        start_sample,
        end_sample,
    }
}

fn slice(index: usize, kind: AudioSliceKind, start: usize, end: usize) -> AudioSlice {
    AudioSlice {
        index,
        kind,
        start_sample: start,
        end_sample: end,
        content_start_sample: start,
        content_end_sample: end,
    }
}

fn layout(
    slices: Vec<AudioSlice>,
    processed_audio_samples: Option<usize>,
    packed_audio_plan: Option<PackedAudioMaterializationPlan>,
) -> LongFormPlanningLayout {
    LongFormPlanningLayout {
        slices,
        processed_audio_samples,
        packed_audio_plan,
        timeline: TimelineMap::identity(),
        selection_provenance: Vec::new(),
    }
}

fn packed(
    spans: Vec<LongFormVadSlice>,
    seam_samples: usize,
    processed_samples: usize,
) -> Option<PackedAudioMaterializationPlan> {
    Some(PackedAudioMaterializationPlan {
        spans,
        seam_samples,
        processed_samples,
    })
}

fn tone(samples: usize) -> Vec<f32> {
    let mut out = Vec::with_capacity(samples);
    for i in 0..samples {
        let t = i as f32 / 16_000.0;
        out.push((t * 2.0 * std::f32::consts::PI * 220.0).sin() * 0.2);
    }
    out
}

fn scaled_tone(samples: usize, scale: f32) -> Vec<f32> {
    tone(samples)
        .into_iter()
        .map(|sample| sample * scale)
        .collect()
}

fn silence(samples: usize) -> Vec<f32> {
    vec![0.0; samples]
}

fn joined(parts: &[Vec<f32>]) -> Vec<f32> {
    parts.iter().flatten().copied().collect()
}

fn plan_with<P: LongFormVadProvider<f32>>(
    samples: &[f32],
    sample_rate_hz: u32,
    settings: &Settings,
    vad_provider: Option<&P>,
) -> Result<LongFormSlicePlan<f32>, LongFormSliceError> {
    let options = settings.at(sample_rate_hz);
    if sample_rate_hz > 0 {
        assert!(can_plan(&options, sample_rate_hz, samples.len()));
    }
    plan_longform_slices(
        samples,
        0.0,
        sample_rate_hz,
        &options,
        Ok(()),
        &measures_of(samples, samples.len()),
        &EnergyVad,
        vad_provider,
        &|_: &DroppedAudio| {},
    )
}

fn plan(samples: &[f32], settings: &Settings) -> LongFormSlicePlan<f32> {
    plan_with(samples, RATE, settings, NO_VAD).unwrap()
}

fn provenance(plan: &LongFormSlicePlan<f32>) -> String {
    plan.stats.provenance.join("\n")
}

fn packed_energy_layout(samples: &[f32], settings: &Settings) -> Option<LongFormPlanningLayout> {
    let options = settings.at(RATE);
    let measures = measures_of(samples, samples.len());
    let speech = EnergyVad
        .compute_speech_slices(samples, RATE, &options)
        .expect("planning");
    plan_packed_layout_from_speech_spans(
        &measures.meter,
        &measures.mapper,
        samples.len(),
        RATE,
        &options,
        AudioSliceKind::Energy,
        speech,
    )
}

fn windows_of(
    spans: &Vec<LongFormVadSlice>,
    settings: &Settings,
    samples: &[f32],
) -> Vec<LongFormVadSlice> {
    let measures = measures_of(samples, samples.len());
    pack_processed_spans_into_windows(
        spans,
        RATE,
        &settings.at(RATE),
        &measures.meter,
        samples.len(),
        &measures.mapper,
        &TimelineMap::identity(),
    )
}

fn candidate(
    kind: AudioSliceKind,
    layout: LongFormPlanningLayout,
    samples: &[f32],
    total_samples: usize,
    settings: &Settings,
) -> AutoPlanCandidate {
    measures_of(samples, total_samples).build_auto_plan_candidate(
        kind,
        layout,
        RATE,
        &settings.at(RATE),
    )
}

fn vad_slices_of(samples: &[f32], settings: &Settings) -> Vec<AudioSlice> {
    let measures = measures_of(samples, samples.len());
    plan_vad_slices_from_speech_spans(
        &measures.meter,
        samples.len(),
        RATE,
        &settings.at(RATE),
        vec![span(0, samples.len())],
    )
}

// ---------------------------------------------------------------------------
// Plans
// ---------------------------------------------------------------------------

#[test]
fn duration_boundary_ceil_uses_exact_integer_binary_rational() {
    let limit = |seconds: f32| executor_window_limit_samples(seconds.to_bits(), 16_000);
    assert_eq!(limit(30.0).unwrap(), 480_000);
    assert_eq!(limit(30.5).unwrap(), 488_000);
    // The stored value is slightly greater than decimal 0.1.
    assert_eq!(limit(0.1).unwrap(), 1_601);
    assert_eq!(limit(f32::from_bits(1)).unwrap(), 1);
    assert!(matches!(
        limit(0.0),
        Err(ExecutorWindowLimitError::InvalidDuration { .. })
    ));
    assert!(matches!(
        limit(f32::NAN),
        Err(ExecutorWindowLimitError::InvalidDuration { .. })
    ));
}

#[test]
fn fixed_mode_generates_multiple_slices() {
    let mut options = options_with_mode(LongFormMode::Fixed);
    options.chunk_seconds = 2.0;
    options.overlap_seconds = 0.5;
    let plan = plan(&tone(16_000 * 6), &options);
    assert!(plan.slices.len() >= 3);
    assert_eq!(plan.slices[0].content_start_sample, 0);
}

#[test]
fn energy_mode_splits_long_audio() {
    let mut samples = tone(16_000 * 6);
    for sample in samples
        .iter_mut()
        .take(16_000 * 3 + 2000)
        .skip(16_000 * 3 - 2000)
    {
        *sample = 0.0;
    }
    let mut options = options_with_mode(LongFormMode::Energy);
    options.chunk_seconds = 2.0;
    let plan = plan(&samples, &options);
    assert!(plan.slices.len() >= 2);
}

#[test]
fn packed_energy_candidate_removes_long_silence_gaps() {
    let samples = joined(&[tone(16_000), silence(16_000 * 12), tone(16_000)]);
    let options = options_with_mode(LongFormMode::Auto);
    let layout = packed_energy_layout(&samples, &options).expect("packed");
    assert_eq!(layout.slices.len(), 1);
    assert!(layout.processed_audio_samples.is_none());
    assert!(
        layout
            .packed_audio_plan
            .as_ref()
            .expect("materialization plan")
            .processed_samples
            < samples.len() / 2
    );
    let timeline = layout.timeline;
    let original_seconds =
        |processed: usize| original_sample(&timeline, processed) as f32 / 16_000.0;
    assert!(original_seconds(0) < 0.5);
    assert!(original_seconds(24_000) > 10.0);
}

#[test]
fn energy_mode_keeps_moderate_pauses_inside_one_chunk() {
    let samples = joined(&[tone(16_000 * 10), silence(16_000 * 3), tone(16_000 * 10)]);
    let options = options_with_mode(LongFormMode::Auto);
    assert!(packed_energy_layout(&samples, &options).is_some());
    let plan = plan(&samples, &options);
    assert_eq!(plan.slices.len(), 1);
    assert!(plan.processed_audio.is_none());
}

#[test]
fn empty_audio_returns_empty_plan() {
    let plan = plan(&[], &options_with_mode(LongFormMode::Auto));
    assert!(plan.slices.is_empty());
    assert_eq!(LongFormBenchmarkMetadata::default().chunk_count, 0);
}

#[test]
fn invalid_sample_rate_fails_closed() {
    let error = plan_with(
        &tone(1600),
        0,
        &options_with_mode(LongFormMode::Auto),
        NO_VAD,
    )
    .unwrap_err();
    assert!(matches!(error, LongFormSliceError::InvalidSampleRate));
    assert_eq!(error.message(), "longform sample_rate_hz must be > 0");
}

#[test]
fn refused_settings_fail_closed() {
    let samples = tone(1600);
    let settings = options_with_mode(LongFormMode::Auto);
    let error = plan_longform_slices(
        &samples,
        0.0,
        RATE,
        &settings.at(RATE),
        Err("chunk_seconds".to_string()),
        &measures_of(&samples, samples.len()),
        &EnergyVad,
        NO_VAD,
        &|_: &DroppedAudio| {},
    )
    .unwrap_err();
    assert_eq!(
        error.message(),
        "longform options are invalid: chunk_seconds"
    );
}

#[test]
fn auto_mode_prefers_vad_provider_for_long_audio() {
    let mut options = options_with_mode(LongFormMode::Auto);
    options.chunk_seconds = 1.0;
    let samples = joined(&[tone(16_000), silence(16_000 * 2), tone(16_000)]);
    let plan = plan_with(&samples, RATE, &options, Some(&FixedVadProvider)).unwrap();
    let provenance = provenance(&plan);
    assert!(
        provenance.contains("vad-identity") || provenance.contains("vad-packed"),
        "custom VAD must participate in Auto, got {provenance}"
    );
    assert_eq!(plan.slices.len(), 2, "{provenance}");
    if let Some(processed) = plan.processed_audio.as_ref() {
        assert!(
            processed.len() >= 16_000 * 2,
            "packed plan dropped a speech island: {} samples ({provenance})",
            processed.len()
        );
    } else {
        assert!(
            plan.slices
                .iter()
                .all(|slice| slice.kind == AudioSliceKind::Vad),
            "{provenance}"
        );
        assert_eq!(plan.slices[0].content_start_sample, 0);
        assert_eq!(
            plan.slices.last().unwrap().content_end_sample,
            samples.len()
        );
    }
}

#[test]
fn vad_mode_falls_back_to_energy_when_provider_is_unavailable() {
    let mut options = options_with_mode(LongFormMode::Vad);
    options.chunk_seconds = 2.0;
    options.fallback_to_energy_when_vad_unavailable = true;
    let plan = plan(&tone(16_000 * 6), &options);
    assert!(!plan.slices.is_empty());
    assert_eq!(plan.slices[0].kind, AudioSliceKind::Energy);
}

#[test]
fn vad_mode_fails_closed_when_provider_is_unavailable_and_fallback_is_disabled() {
    let mut options = options_with_mode(LongFormMode::Vad);
    options.fallback_to_energy_when_vad_unavailable = false;
    let error = plan_with(&tone(16_000 * 2), RATE, &options, NO_VAD).unwrap_err();
    assert!(matches!(error, LongFormSliceError::VadUnavailable));
}

#[test]
fn vad_mode_passes_a_failed_detector_on() {
    struct Broken;
    impl LongFormVadProvider<f32> for Broken {
        fn compute_speech_slices(
            &self,
            _samples: &[f32],
            _sample_rate_hz: u32,
            _options: &LongFormOptions,
        ) -> Result<Vec<LongFormVadSlice>, String> {
            Err("no model".to_string())
        }
    }
    let options = options_with_mode(LongFormMode::Vad);
    let error = plan_with(&tone(16_000 * 2), RATE, &options, Some(&Broken)).unwrap_err();
    assert_eq!(error.message(), "longform VAD provider failed: no model");
}

#[test]
fn mid_provider_cancel_stops_planning_before_materialization() {
    struct CancelFromInsideProvider {
        canceled: Rc<Cell<bool>>,
        legacy_calls: Rc<Cell<usize>>,
    }

    impl LongFormVadProvider<f32> for CancelFromInsideProvider {
        fn compute_speech_slices(
            &self,
            _samples: &[f32],
            _sample_rate_hz: u32,
            _options: &LongFormOptions,
        ) -> Result<Vec<LongFormVadSlice>, String> {
            self.legacy_calls.set(self.legacy_calls.get() + 1);
            Ok(Vec::new())
        }

        fn compute_speech_slices_cancellable<C: Fn() -> bool>(
            &self,
            _samples: &[f32],
            _sample_rate_hz: u32,
            _options: &LongFormOptions,
            canceled: &C,
        ) -> Result<Vec<LongFormVadSlice>, LongFormVadProviderError> {
            self.canceled.set(true);
            assert!(
                canceled(),
                "provider must observe the request cancel source"
            );
            Err(LongFormVadProviderError::Canceled)
        }
    }

    let canceled = Rc::new(Cell::new(false));
    let legacy_calls = Rc::new(Cell::new(0));
    let provider = CancelFromInsideProvider {
        canceled: Rc::clone(&canceled),
        legacy_calls: Rc::clone(&legacy_calls),
    };
    let admission_asked = Cell::new(false);
    let samples = tone(16_000 * 2);
    let options = options_with_mode(LongFormMode::Vad);

    let error = measures_of(&samples, samples.len())
        .plan_longform_slices_with_materialization_gate(
            &samples,
            0.0,
            RATE,
            &options.at(RATE),
            Ok(()),
            &EnergyVad,
            Some(&provider),
            &|| canceled.get(),
            &|_: &DroppedAudio| {},
            |_| {
                admission_asked.set(true);
                Ok::<(), ()>(())
            },
        )
        .expect_err("mid-provider cancellation must stop planning");

    assert!(matches!(
        error,
        LongFormSlicePlanningError::Planning(LongFormSliceError::Canceled)
    ));
    assert_eq!(legacy_calls.get(), 0);
    assert!(!admission_asked.get());
}

#[test]
fn vad_mode_coalesces_short_adjacent_speech_chunks() {
    let vad = Spans(vec![
        span(0, 16_000),
        span(16_400, 32_000),
        span(40_000, 56_000),
    ]);
    let mut options = options_with_mode(LongFormMode::Vad);
    options.chunk_seconds = 4.0;
    options.min_chunk_seconds = 2.5;
    options.min_silence_duration_ms = 100;
    let samples = tone(16_000 * 6);
    let plan = plan_with(&samples, RATE, &options, Some(&vad)).unwrap();
    assert!(
        plan.slices.len() <= 2,
        "coalesced slices: {}",
        plan.slices.len()
    );
    assert_eq!(plan.slices[0].kind, AudioSliceKind::Vad);
}

#[test]
fn vad_mode_packs_adjacent_speech_regions_across_moderate_pauses() {
    let vad = Spans(vec![
        span(0, 16_000 * 4),
        span(16_000 * 5, 16_000 * 9),
        span(16_000 * 11, 16_000 * 15),
        span(16_000 * 25, 16_000 * 29),
    ]);
    let mut options = options_with_mode(LongFormMode::Vad);
    options.chunk_seconds = 30.0;
    options.padding_seconds = 0.25;
    options.overlap_seconds = 0.5;
    options.min_silence_duration_ms = 450;
    let samples = tone(16_000 * 30);
    let plan = plan_with(&samples, RATE, &options, Some(&vad)).unwrap();
    assert_eq!(plan.slices.len(), 2);
    assert_eq!(plan.slices[0].kind, AudioSliceKind::Vad);
    assert!(plan.slices[0].content_end_sample >= 16_000 * 15);
    assert!(plan.slices[1].content_start_sample >= 16_000 * 25);
}

#[test]
fn auto_mode_keeps_best_energy_plan_when_custom_vad_is_over_fragmented() {
    let vad = Spans(
        (0..9)
            .map(|index| span(index * 16_000 * 3, index * 16_000 * 3 + 16_000))
            .collect(),
    );
    let mut options = options_with_mode(LongFormMode::Auto);
    options.chunk_seconds = 8.0;
    options.min_chunk_seconds = 1.0;
    let mut samples = Vec::new();
    for index in 0..9 {
        samples.extend(tone(16_000));
        if index < 8 {
            samples.extend(scaled_tone(16_000 * 2, 0.1));
        }
    }
    let plan = plan_with(&samples, RATE, &options, Some(&vad)).unwrap();
    let provenance = provenance(&plan);
    assert!(!plan.slices.is_empty());
    assert!(
        matches!(
            plan.slices[0].kind,
            AudioSliceKind::Energy | AudioSliceKind::Fixed
        ),
        "{provenance}"
    );
    assert!(
        plan.processed_audio.is_none(),
        "the winning plan must keep the full recording, not a packed/elided one: {provenance}"
    );
    assert!(
        provenance.contains("core.longform.auto.disqualified:vad-packed:coverage_dominance"),
        "{provenance}"
    );
    assert!(
        provenance.contains("core.longform.auto.disqualified:vad-identity:coverage_dominance"),
        "{provenance}"
    );
}

fn sparse_vad() -> Spans {
    Spans(vec![
        span(16_000 * 2, 16_000 * 3),
        span(16_000 * 20, 16_000 * 21),
        span(16_000 * 35, 16_000 * 36),
    ])
}

#[test]
fn auto_mode_can_choose_packed_vad_candidate_for_large_gaps() {
    let mut options = options_with_mode(LongFormMode::Auto);
    options.chunk_seconds = 30.0;
    let samples = silence(16_000 * 40);
    let plan = plan_with(&samples, RATE, &options, Some(&sparse_vad())).unwrap();
    assert!(plan.processed_audio.is_some());
    assert_eq!(plan.slices[0].kind, AudioSliceKind::Vad);
    assert!(plan.slices.len() <= 2);
    assert!(plan.processed_audio.as_ref().expect("processed").len() < samples.len() / 3);
}

#[test]
fn auto_mode_disqualifies_custom_vad_that_drops_an_audible_bridge() {
    let vad = Spans(vec![
        span(0, 16_000 * 12),
        span(16_000 * 22, 16_000 * 34),
        span(16_000 * 44, 16_000 * 56),
    ]);
    let mut options = options_with_mode(LongFormMode::Auto);
    options.chunk_seconds = 30.0;
    options.min_chunk_seconds = 1.0;
    options.padding_seconds = 0.0;

    let samples = joined(&[
        tone(16_000 * 12),
        scaled_tone(16_000 * 10, 0.4),
        tone(16_000 * 12),
        scaled_tone(16_000 * 10, 0.4),
        tone(16_000 * 12),
    ]);
    let plan = plan_with(&samples, RATE, &options, Some(&vad)).unwrap();
    let provenance = provenance(&plan);
    assert_eq!(plan.slices[0].kind, AudioSliceKind::Energy, "{provenance}");
    assert!(
        plan.processed_audio.is_none(),
        "the winning plan must keep the audible bridges, not drop them: {provenance}"
    );
    assert!(
        provenance.contains("core.longform.auto.disqualified:vad-packed:coverage_dominance"),
        "{provenance}"
    );
    assert!(
        provenance.contains("core.longform.auto.disqualified:vad-identity:coverage_dominance"),
        "{provenance}"
    );
}

#[test]
fn auto_mode_considers_custom_vad_without_energy_prefilter() {
    let mut options = options_with_mode(LongFormMode::Auto);
    options.chunk_seconds = 30.0;
    let samples = tone(16_000 * 40);
    let plan = plan_with(&samples, RATE, &options, Some(&sparse_vad())).unwrap();
    let provenance = provenance(&plan);
    assert!(provenance.contains("vad-"), "{provenance}");
}

#[test]
fn auto_mode_prunes_vad_candidate_when_energy_packed_dominates_it() {
    let mut options = options_with_mode(LongFormMode::Auto);
    options.chunk_seconds = 8.0;
    options.padding_seconds = 0.0;
    let samples = tone(16_000 * 4);
    let made = |kind: AudioSliceKind| {
        candidate(
            kind,
            layout(
                vec![slice(0, AudioSliceKind::Energy, 0, 16_000 * 4)],
                Some(samples.len()),
                None,
            ),
            &samples,
            16_000 * 20,
            &options,
        )
    };
    let candidates =
        prune_dominated_vad_candidates(vec![made(AudioSliceKind::Vad), made(AudioSliceKind::Energy)]);
    assert_eq!(candidates.len(), 1);
    assert_eq!(candidates[0].kind, AudioSliceKind::Energy);
}

#[test]
fn auto_mode_penalizes_marginal_packed_candidate_when_identity_has_same_chunk_count() {
    let mut options = options_with_mode(LongFormMode::Auto);
    options.chunk_seconds = 30.0;
    let samples = tone(16_000 * 10);
    let slices = || vec![slice(0, AudioSliceKind::Energy, 0, 16_000 * 10)];
    let identity_candidate = candidate(
        AudioSliceKind::Energy,
        layout(slices(), None, None),
        &samples,
        16_000 * 120,
        &options,
    );
    let marginal_packed_candidate = candidate(
        AudioSliceKind::Energy,
        layout(
            slices(),
            Some(identity_candidate.processed_samples - 16_000 * 3),
            None,
        ),
        &samples,
        16_000 * 120,
        &options,
    );
    let mut candidates = vec![marginal_packed_candidate, identity_candidate];
    let provenance =
        apply_marginal_packed_penalties(&mut candidates, 16_000 * 120, &options.at(RATE));
    let candidates = sort_auto_plan_candidates(candidates);
    assert_eq!(candidates.len(), 2);
    assert!(!layout_uses_packed_timeline(&candidates[0].layout));
    assert!(provenance.iter().any(|entry| {
        entry.contains("core.longform.auto.penalized:energy-packed")
            && entry.contains("identity_chunks=1:packed_chunks=1")
    }));
    assert!(candidates[1].contextual_penalty > 0);
}

/// A candidate with nothing but what is given.
fn bare_candidate(kind: AudioSliceKind, layout: LongFormPlanningLayout) -> AutoPlanCandidate {
    AutoPlanCandidate {
        kind,
        score: 0,
        processed_samples: 0,
        short_slice_penalty: 0,
        boundary_penalty: 0,
        elision_penalty: 0,
        gap_edge_penalty: 0,
        seam_penalty: 0,
        extra_chunk_penalty: 0,
        stability_bias: 0,
        contextual_credit: 0,
        contextual_penalty: 0,
        layout,
    }
}

#[test]
fn auto_mode_penalizes_packed_candidate_when_it_adds_chunks_without_chunk_scale_savings() {
    let mut options = options_with_mode(LongFormMode::Auto);
    options.chunk_seconds = 30.0;

    let identity_candidate = AutoPlanCandidate {
        score: 1_000,
        processed_samples: 16_000 * 139,
        boundary_penalty: 400,
        extra_chunk_penalty: 160_000,
        ..bare_candidate(
            AudioSliceKind::Energy,
            layout(
                (0..5)
                    .map(|index| {
                        slice(
                            index,
                            AudioSliceKind::Energy,
                            index * 16_000 * 30,
                            (index + 1) * 16_000 * 30,
                        )
                    })
                    .collect(),
                None,
                None,
            ),
        )
    };
    let packed_candidate = AutoPlanCandidate {
        score: 900,
        processed_samples: 16_000 * 118,
        short_slice_penalty: 170_000,
        boundary_penalty: 2_200,
        elision_penalty: 52_000,
        seam_penalty: 10_000,
        extra_chunk_penalty: 200_000,
        ..bare_candidate(
            AudioSliceKind::Energy,
            layout(
                (0..6)
                    .map(|index| {
                        slice(
                            index,
                            AudioSliceKind::Energy,
                            index * 16_000 * 24,
                            (index + 1) * 16_000 * 24,
                        )
                    })
                    .collect(),
                None,
                packed(vec![span(0, 16_000 * 20); 6], 16_000 / 10, 16_000 * 118),
            ),
        )
    };

    let mut candidates = vec![packed_candidate, identity_candidate];
    let provenance =
        apply_marginal_packed_penalties(&mut candidates, 16_000 * 139, &options.at(RATE));
    let candidates = sort_auto_plan_candidates(candidates);

    assert_eq!(candidates[0].kind, AudioSliceKind::Energy);
    assert!(
        !layout_uses_packed_timeline(&candidates[0].layout),
        "{candidates:#?}"
    );
    assert!(
        provenance
            .iter()
            .any(|entry| entry.contains("identity_chunks=5:packed_chunks=6")),
        "{provenance:?}"
    );
}

#[test]
fn auto_mode_penalizes_marginal_vad_candidate_when_energy_shape_matches() {
    let mut options = options_with_mode(LongFormMode::Auto);
    options.chunk_seconds = 30.0;
    let samples = joined(&[tone(16_000 * 4), silence(16_000), tone(16_000 * 4)]);
    let energy_candidate = candidate(
        AudioSliceKind::Energy,
        layout(
            vec![
                slice(0, AudioSliceKind::Energy, 0, 16_000 * 3 + 16_000 / 2),
                slice(
                    1,
                    AudioSliceKind::Energy,
                    16_000 * 3 + 16_000 / 2,
                    16_000 * 9,
                ),
            ],
            Some(samples.len()),
            None,
        ),
        &samples,
        16_000 * 9,
        &options,
    );
    let vad_candidate = candidate(
        AudioSliceKind::Vad,
        layout(
            vec![
                slice(0, AudioSliceKind::Vad, 0, 16_000 * 4 + 16_000 / 2),
                slice(1, AudioSliceKind::Vad, 16_000 * 5, 16_000 * 9),
            ],
            Some(16_000 * 8 + 16_000 / 2),
            None,
        ),
        &samples,
        16_000 * 9,
        &options,
    );
    assert!(vad_candidate.boundary_penalty < energy_candidate.boundary_penalty);
    let mut candidates = vec![vad_candidate, energy_candidate];
    let provenance = apply_marginal_vad_penalties(&mut candidates, 16_000 * 9, &options.at(RATE));
    let candidates = sort_auto_plan_candidates(candidates);
    assert!(provenance.is_empty());
    assert_eq!(candidates[0].kind, AudioSliceKind::Vad);
    assert_eq!(candidates[0].contextual_penalty, 0);
}

/// Two slices of half a minute each on a packed timeline through given spans.
fn halves(kind: AudioSliceKind, spans: Vec<LongFormVadSlice>, seam: usize) -> LongFormPlanningLayout {
    layout(
        vec![
            slice(0, kind, 0, 16_000 * 15),
            slice(1, kind, 16_000 * 15, 16_000 * 30),
        ],
        None,
        packed(spans, seam, 16_000 * 30),
    )
}

#[test]
fn auto_mode_rewards_material_vad_boundary_gain_for_matching_shape() {
    let mut options = options_with_mode(LongFormMode::Auto);
    options.chunk_seconds = 30.0;
    let two_spans = || {
        vec![
            span(0, 16_000 * 15),
            span(16_000 * 15, 16_000 * 30),
        ]
    };

    let energy_candidate = AutoPlanCandidate {
        score: 1000,
        processed_samples: 16_000 * 30,
        boundary_penalty: 700,
        extra_chunk_penalty: 40_000,
        ..bare_candidate(
            AudioSliceKind::Energy,
            halves(AudioSliceKind::Energy, two_spans(), 0),
        )
    };
    let vad_candidate = AutoPlanCandidate {
        score: 1200,
        processed_samples: 16_000 * 30,
        boundary_penalty: 100,
        extra_chunk_penalty: 40_000,
        ..bare_candidate(
            AudioSliceKind::Vad,
            halves(AudioSliceKind::Vad, two_spans(), 0),
        )
    };

    assert!(vad_candidate.boundary_penalty < energy_candidate.boundary_penalty);
    assert!(vad_candidate.score > energy_candidate.score);

    let mut candidates = vec![vad_candidate, energy_candidate];
    let provenance = apply_material_vad_boundary_credits(&mut candidates, RATE, &options.at(RATE));
    let candidates = sort_auto_plan_candidates(candidates);

    assert!(
        provenance
            .iter()
            .any(|entry| entry.contains("auto.rewarded:vad-")),
        "{provenance:?}"
    );
    assert_eq!(candidates[0].kind, AudioSliceKind::Vad, "{candidates:#?}");
    assert!(candidates[0].contextual_credit > 0);
}

#[test]
fn auto_mode_does_not_reward_vad_boundary_gain_when_fragmentation_overhead_cancels_it() {
    let mut options = options_with_mode(LongFormMode::Auto);
    options.chunk_seconds = 30.0;

    let energy_candidate = AutoPlanCandidate {
        score: 1000,
        processed_samples: 16_000 * 30,
        boundary_penalty: 600,
        extra_chunk_penalty: 40_000,
        ..bare_candidate(
            AudioSliceKind::Energy,
            halves(
                AudioSliceKind::Energy,
                vec![
                    span(0, 16_000 * 15),
                    span(16_000 * 15, 16_000 * 30),
                ],
                0,
            ),
        )
    };
    let vad_candidate = AutoPlanCandidate {
        score: 1100,
        processed_samples: 16_000 * 30,
        short_slice_penalty: 350,
        boundary_penalty: 300,
        seam_penalty: 120,
        extra_chunk_penalty: 40_000,
        ..bare_candidate(
            AudioSliceKind::Vad,
            halves(
                AudioSliceKind::Vad,
                vec![
                    span(0, 16_000 * 8),
                    span(16_000 * 8, 16_000 * 15),
                    span(16_000 * 15, 16_000 * 22),
                    span(16_000 * 22, 16_000 * 30),
                ],
                16_000 / 10,
            ),
        )
    };

    let mut candidates = vec![vad_candidate, energy_candidate];
    let provenance = apply_material_vad_boundary_credits(&mut candidates, RATE, &options.at(RATE));
    let candidates = sort_auto_plan_candidates(candidates);

    assert!(provenance.is_empty(), "{provenance:?}");
    assert_eq!(
        candidates[0].kind,
        AudioSliceKind::Energy,
        "{candidates:#?}"
    );
    assert_eq!(candidates[1].contextual_credit, 0);
}

#[test]
fn boundary_penalty_prefers_quieter_internal_cuts() {
    let mut options = options_with_mode(LongFormMode::Auto);
    options.chunk_seconds = 30.0;
    let samples = joined(&[tone(16_000 * 4), silence(16_000), tone(16_000 * 4)]);
    let loud_cut = layout(
        vec![
            slice(0, AudioSliceKind::Energy, 0, 16_000 * 3 + 16_000 / 2),
            slice(
                1,
                AudioSliceKind::Energy,
                16_000 * 3 + 16_000 / 2,
                16_000 * 9,
            ),
        ],
        None,
        None,
    );
    let quiet_cut = layout(
        vec![
            slice(0, AudioSliceKind::Vad, 0, 16_000 * 4 + 16_000 / 2),
            slice(1, AudioSliceKind::Vad, 16_000 * 5, 16_000 * 9),
        ],
        None,
        None,
    );
    let measures = measures_of(&samples, samples.len());
    let loud_penalty = measures.estimate_boundary_penalty(&loud_cut, &options.at(RATE));
    let quiet_penalty = measures.estimate_boundary_penalty(&quiet_cut, &options.at(RATE));
    assert!(
        quiet_penalty < loud_penalty,
        "{quiet_penalty} !< {loud_penalty}"
    );
}

fn elision_penalty_of(samples: &[f32], layout: &LongFormPlanningLayout) -> usize {
    let (kept, _) = candidate_kept_and_dropped_ranges(layout, samples.len());
    measures_of(samples, samples.len()).estimate_elision_penalty(layout, &kept)
}

fn gap_edge_penalty_of(
    samples: &[f32],
    layout: &LongFormPlanningLayout,
    settings: &Settings,
) -> usize {
    let (kept, _) = candidate_kept_and_dropped_ranges(layout, samples.len());
    measures_of(samples, samples.len()).estimate_gap_edge_penalty(
        layout,
        &settings.at(RATE),
        &kept,
    )
}

/// One slice on a packed timeline through given spans.
fn one_packed_slice(spans: Vec<LongFormVadSlice>, seam: usize, samples: usize) -> LongFormPlanningLayout {
    let end = samples;
    layout(
        vec![slice(0, AudioSliceKind::Energy, 0, end)],
        None,
        packed(spans, seam, samples),
    )
}

#[test]
fn elision_penalty_only_charges_non_silent_removed_gaps() {
    let silent_gap_samples = joined(&[tone(16_000 * 4), silence(16_000 * 2), tone(16_000 * 4)]);
    let loud_gap_samples = joined(&[tone(16_000 * 4), tone(16_000 * 2), tone(16_000 * 4)]);
    let packed_layout = one_packed_slice(
        vec![
            span(0, 16_000 * 4),
            span(16_000 * 6, 16_000 * 10),
        ],
        0,
        16_000 * 8,
    );

    let silent_penalty = elision_penalty_of(&silent_gap_samples, &packed_layout);
    let loud_penalty = elision_penalty_of(&loud_gap_samples, &packed_layout);
    assert_eq!(silent_penalty, 0);
    assert!(loud_penalty > 0, "{loud_penalty}");
}

#[test]
fn elision_penalty_charges_head_and_tail_truncation_like_an_interior_gap() {
    let truncated_both_ends_samples =
        joined(&[tone(16_000 * 2), tone(16_000 * 4), tone(16_000 * 2)]);
    let truncated_both_ends_layout =
        one_packed_slice(vec![span(16_000 * 2, 16_000 * 6)], 0, 16_000 * 4);
    let truncated_silent_ends_samples =
        joined(&[silence(16_000 * 2), tone(16_000 * 4), silence(16_000 * 2)]);

    let single_span_penalty =
        elision_penalty_of(&truncated_both_ends_samples, &truncated_both_ends_layout);
    let silent_ends_penalty =
        elision_penalty_of(&truncated_silent_ends_samples, &truncated_both_ends_layout);
    assert!(
        single_span_penalty > 0,
        "loud head/tail truncation must be penalized: {single_span_penalty}"
    );
    assert_eq!(
        silent_ends_penalty, 0,
        "truly silent head/tail truncation must stay free"
    );

    let interior_gap_layout = one_packed_slice(
        vec![
            span(0, 16_000 * 2),
            span(16_000 * 6, 16_000 * 8),
        ],
        0,
        16_000 * 4,
    );
    let interior_gap_penalty =
        elision_penalty_of(&truncated_both_ends_samples, &interior_gap_layout);
    assert_eq!(
        single_span_penalty, interior_gap_penalty,
        "head+tail truncation of the same loud audio must cost the same as an interior gap"
    );
}

#[test]
fn gap_edge_penalty_only_charges_non_quiet_gap_edges() {
    let mut options = options_with_mode(LongFormMode::Auto);
    options.chunk_seconds = 30.0;
    options.padding_seconds = 0.0;

    let quiet_edge_gap_samples = joined(&[
        tone(16_000 * 4),
        silence(16_000 / 2),
        scaled_tone(16_000, 0.35),
        silence(16_000 / 2),
        tone(16_000 * 4),
    ]);
    let loud_edge_gap_samples = joined(&[
        tone(16_000 * 4),
        scaled_tone(16_000 / 2, 0.35),
        silence(16_000),
        scaled_tone(16_000 / 2, 0.35),
        tone(16_000 * 4),
    ]);
    let packed_layout = one_packed_slice(
        vec![
            span(0, 16_000 * 4),
            span(16_000 * 6, 16_000 * 10),
        ],
        0,
        16_000 * 8,
    );

    let quiet_penalty = gap_edge_penalty_of(&quiet_edge_gap_samples, &packed_layout, &options);
    let loud_penalty = gap_edge_penalty_of(&loud_edge_gap_samples, &packed_layout, &options);
    assert_eq!(quiet_penalty, 0);
    assert!(loud_penalty > 0, "{loud_penalty}");
}

#[test]
fn seam_penalty_prefers_fewer_splices_for_same_chunk_layout() {
    let mut options = options_with_mode(LongFormMode::Auto);
    options.chunk_seconds = 30.0;
    options.padding_seconds = 0.25;
    let seam = seconds_to_samples(0.10, RATE);
    let one_slice = || vec![slice(0, AudioSliceKind::Energy, 0, 16_000 * 8)];

    let fewer_seams = layout(
        one_slice(),
        None,
        packed(
            vec![
                span(0, 16_000 * 4),
                span(16_000 * 6, 16_000 * 10),
            ],
            seam,
            16_000 * 8 + seam,
        ),
    );
    let more_seams = layout(
        one_slice(),
        None,
        packed(
            vec![
                span(0, 16_000 * 2),
                span(16_000 * 3, 16_000 * 5),
                span(16_000 * 6, 16_000 * 8),
                span(16_000 * 9, 16_000 * 11),
            ],
            seam,
            16_000 * 8 + seam * 3,
        ),
    );
    let fewer_penalty = estimate_seam_penalty(&fewer_seams, &options.at(RATE));
    let more_penalty = estimate_seam_penalty(&more_seams, &options.at(RATE));
    assert!(
        more_penalty > fewer_penalty,
        "{more_penalty} !> {fewer_penalty}"
    );
    // A forty-eighth of a chunk for every seam.
    assert_eq!((fewer_penalty, more_penalty), (10_000, 30_000));
}

#[test]
fn auto_mode_skips_duplicate_energy_like_vad_candidates() {
    let samples = joined(&[tone(16_000 * 4), silence(16_000 * 12), tone(16_000 * 4)]);
    let mut options = options_with_mode(LongFormMode::Auto);
    options.chunk_seconds = 8.0;
    let plan = plan_with(&samples, RATE, &options, Some(&EnergyVad)).unwrap();
    let provenance = provenance(&plan);
    assert!(provenance.contains("energy-packed"), "{provenance}");
    assert!(!provenance.contains("vad-"), "{provenance}");
}

fn sparse_recording() -> Vec<f32> {
    let mut samples = Vec::new();
    for _ in 0..5 {
        samples.extend(tone(16_000 * 4));
        samples.extend(silence(16_000 * 12));
    }
    samples
}

#[test]
fn auto_mode_prefers_packed_timeline_for_large_silence_gaps() {
    let samples = sparse_recording();
    let mut options = options_with_mode(LongFormMode::Auto);
    options.chunk_seconds = 30.0;
    let plan = plan(&samples, &options);
    assert!(plan.processed_audio.is_some());
    assert!(plan.slices.len() <= 3);
    assert!(plan.processed_audio.as_ref().expect("processed").len() < samples.len() / 2);
}

#[test]
fn packed_materialization_gate_runs_before_the_pcm_allocation() {
    let samples = sparse_recording();
    let mut options = options_with_mode(LongFormMode::Auto);
    options.chunk_seconds = 30.0;
    let mut proposed_samples = None;

    let error = measures_of(&samples, samples.len())
        .plan_longform_slices_with_materialization_gate(
            &samples,
            0.0,
            RATE,
            &options.at(RATE),
            Ok(()),
            &EnergyVad,
            NO_VAD,
            &|| false,
            &|_: &DroppedAudio| {},
            |count| {
                proposed_samples = Some(count);
                Err("memory rejected")
            },
        )
        .expect_err("a refusal must stop packed materialization");

    assert!(matches!(
        error,
        LongFormSlicePlanningError::PackedAudioAdmission("memory rejected")
    ));
    let proposed_samples = proposed_samples.expect("packed candidate reached admission");
    assert!(proposed_samples > 0);
    assert!(proposed_samples < samples.len() / 2);
}

#[test]
fn auto_mode_can_elide_cumulative_moderate_gaps() {
    let mut samples = Vec::new();
    for index in 0..4 {
        samples.extend(tone(16_000 * 4));
        if index < 3 {
            samples.extend(silence(16_000 * 6));
        }
    }
    let mut options = options_with_mode(LongFormMode::Auto);
    options.chunk_seconds = 30.0;
    let plan = plan(&samples, &options);
    assert!(
        plan.processed_audio.is_some(),
        "expected packed timeline candidate"
    );
    assert!(plan.processed_audio.as_ref().expect("processed").len() < samples.len());
    assert!(
        plan.slices.len() <= 2,
        "packed slices: {}",
        plan.slices.len()
    );
}

#[test]
fn auto_mode_prefers_identity_when_same_chunk_packed_savings_are_marginal() {
    let mut samples = Vec::new();
    for index in 0..5 {
        samples.extend(tone(16_000 * 6));
        if index < 4 {
            samples.extend(silence(16_000 * 3));
        }
    }
    let mut options = options_with_mode(LongFormMode::Auto);
    options.chunk_seconds = 30.0;
    let plan = plan(&samples, &options);
    let provenance = provenance(&plan);
    assert!(plan.processed_audio.is_none(), "{provenance}");
    assert_eq!(plan.slices[0].kind, AudioSliceKind::Energy, "{provenance}");
    assert!(
        provenance.contains("core.longform.auto.penalized:energy-packed"),
        "{provenance}"
    );
    assert!(
        provenance.contains("core.longform.auto.selected:energy-identity"),
        "{provenance}"
    );
}

#[test]
fn auto_mode_prefers_packed_for_material_quiet_gap_savings() {
    let mut options = options_with_mode(LongFormMode::Auto);
    options.chunk_seconds = 30.0;
    options.padding_seconds = 0.0;
    let samples = joined(&[tone(16_000 * 18), silence(16_000 * 6), tone(16_000 * 18)]);

    let plan = plan(&samples, &options);
    let provenance = provenance(&plan);
    assert!(plan.processed_audio.is_some(), "{provenance}");
    assert_eq!(plan.slices[0].kind, AudioSliceKind::Energy, "{provenance}");
    assert!(
        provenance.contains("core.longform.auto.selected:energy-packed"),
        "{provenance}"
    );
    assert!(
        !provenance.contains("core.longform.auto.penalized:energy-packed"),
        "{provenance}"
    );
}

#[test]
fn auto_mode_packs_true_silence_while_keeping_loud_gap_edges() {
    let mut options = options_with_mode(LongFormMode::Auto);
    options.chunk_seconds = 30.0;
    options.padding_seconds = 0.0;
    let samples = joined(&[
        tone(16_000 * 18),
        scaled_tone(16_000, 0.6),
        silence(16_000 * 4),
        scaled_tone(16_000, 0.6),
        tone(16_000 * 18),
    ]);

    let plan = plan(&samples, &options);
    let provenance = provenance(&plan);
    assert_eq!(plan.slices[0].kind, AudioSliceKind::Energy, "{provenance}");
    assert!(
        provenance.contains("core.longform.auto.selected:energy-packed"),
        "{provenance}"
    );
    assert!(
        provenance.contains(":gap_edge_penalty=0:") && provenance.contains(":elision_penalty=0:"),
        "the loud edges must not be charged as dropped: {provenance}"
    );
    let processed_len = plan
        .processed_audio
        .as_ref()
        .expect("packed plan elides the true silent middle")
        .len();
    assert!(
        processed_len > samples.len() - 16_000 * 5,
        "processed_len={processed_len} dropped more than the true silent middle: {provenance}"
    );
}

#[test]
fn packed_windows_apply_configured_overlap_between_chunks() {
    let mut options = options_with_mode(LongFormMode::Auto);
    options.chunk_seconds = 30.0;
    options.min_chunk_seconds = 15.0;
    options.overlap_seconds = 0.5;
    let spans = vec![
        span(0, 16_000 * 18),
        span(16_000 * 18, 16_000 * 36),
        span(16_000 * 36, 16_000 * 54),
    ];
    let windows = windows_of(&spans, &options, &[]);
    assert_eq!(windows.len(), 3, "{windows:#?}");
    assert!(
        windows[1].start_sample < windows[0].end_sample,
        "{windows:#?}"
    );
    assert!(
        windows[2].start_sample < windows[1].end_sample,
        "{windows:#?}"
    );
    assert_eq!(
        windows[1].start_sample,
        windows[0].end_sample.saturating_sub(16_000 / 2),
        "{windows:#?}"
    );
}

fn assert_plan_respects_executor_ceiling(plan: &LongFormSlicePlan<f32>, settings: &Settings) {
    let limit =
        executor_window_limit_samples(settings.max_chunk_seconds.to_bits(), plan.sample_rate_hz)
            .expect("executor ceiling");
    for slice in &plan.slices {
        assert!(
            slice.duration_samples() <= limit,
            "slice {slice:?} duration {} exceeds executor ceiling {limit}",
            slice.duration_samples()
        );
    }
}

fn assert_packed_windows_cover_spans(
    windows: &[LongFormVadSlice],
    spans: &[LongFormVadSlice],
    max_samples: usize,
) {
    assert!(!windows.is_empty(), "expected packed windows");
    let origin = spans[0].start_sample;
    let limit = spans.last().expect("spans").end_sample;
    let mut covered_to = origin;
    for window in windows {
        let duration = window.end_sample.saturating_sub(window.start_sample);
        assert!(
            duration <= max_samples,
            "window {window:?} duration {duration} exceeds {max_samples}"
        );
        assert!(
            window.start_sample <= covered_to,
            "packed coverage gap before {window:?} (covered_to={covered_to})"
        );
        covered_to = covered_to.max(window.end_sample);
    }
    assert_eq!(
        covered_to, limit,
        "packed windows dropped samples before processed end {limit}"
    );
}

#[test]
fn packed_windows_never_exceed_zero_margin_ceiling_with_overlap() {
    let mut options = options_with_mode(LongFormMode::Auto);
    options.chunk_seconds = 30.0;
    options.max_chunk_seconds = 30.0;
    options.overlap_seconds = 0.5;
    options.min_chunk_seconds = 1.0;
    options.padding_seconds = 0.0;
    let cap = 30 * RATE as usize;
    let spans = vec![span(0, cap), span(cap, cap * 2), span(cap * 2, cap * 3)];
    let windows = windows_of(&spans, &options, &[]);
    let max_samples =
        executor_window_limit_samples(options.max_chunk_seconds.to_bits(), RATE).unwrap();
    assert_eq!(max_samples, 480_000);
    assert_packed_windows_cover_spans(&windows, &spans, max_samples);
    for pair in windows.windows(2) {
        assert!(
            pair[1].start_sample < pair[0].end_sample,
            "configured overlap must still rewind the next window: {windows:#?}"
        );
    }
}

#[test]
fn packed_windows_apply_configured_overlap_not_forced_cut_widening() {
    let mut options = options_with_mode(LongFormMode::Auto);
    options.chunk_seconds = 30.0;
    options.max_chunk_seconds = 30.0;
    options.overlap_seconds = 0.5;
    options.min_chunk_seconds = 1.0;
    let cap = 30 * RATE as usize;
    let spans = vec![span(0, cap), span(cap, cap * 2)];
    let windows = windows_of(&spans, &options, &[]);
    assert!(windows.len() >= 2, "{windows:#?}");
    let overlap = windows[0]
        .end_sample
        .saturating_sub(windows[1].start_sample);
    assert_eq!(
        overlap,
        RATE as usize / 2,
        "packed overlap must stay at the configured 0.5s, got {overlap} ({windows:#?})"
    );
}

/// Speech in stretches of half a minute with short holes between them.
fn ceiling_filled_spans(total_samples: usize, rate: u32) -> Vec<LongFormVadSlice> {
    let dropped = ((2.91 * rate as f32).round() as usize).min(total_samples);
    let gap = dropped / 10;
    let remainder_gap = dropped - gap * 10;
    let kept = total_samples.saturating_sub(dropped);
    let full = rate as usize * 30;
    let mut spans = Vec::new();
    let mut cursor = 0usize;
    let mut remaining = kept;
    let mut gaps_left = 10usize;
    while remaining > 0 {
        let take = remaining.min(full);
        spans.push(span(cursor, cursor + take));
        cursor += take;
        remaining -= take;
        if remaining > 0 && gaps_left > 0 {
            cursor += gap + if gaps_left == 1 { remainder_gap } else { 0 };
            gaps_left -= 1;
        }
    }
    spans
}

#[test]
fn auto_packed_plan_stays_inside_executor_ceiling_on_holey_speech() {
    let mut options = options_with_mode(LongFormMode::Auto);
    options.chunk_seconds = 30.0;
    options.max_chunk_seconds = 30.0;
    options.overlap_seconds = 0.5;
    options.padding_seconds = 0.0;
    let total_samples = (265.45 * RATE as f32).round() as usize;
    let spans = ceiling_filled_spans(total_samples, RATE);
    let mut samples = silence(total_samples);
    let voiced = tone(total_samples);
    for span in &spans {
        samples[span.start_sample..span.end_sample]
            .copy_from_slice(&voiced[span.start_sample..span.end_sample]);
    }
    let mut processed_spans = Vec::new();
    let mut cursor = 0usize;
    for kept in &spans {
        let len = kept.end_sample.saturating_sub(kept.start_sample);
        processed_spans.push(span(cursor, cursor + len));
        cursor += len;
    }
    let packed_windows = windows_of(&processed_spans, &options, &samples);
    let max_samples =
        executor_window_limit_samples(options.max_chunk_seconds.to_bits(), RATE).unwrap();
    assert_packed_windows_cover_spans(&packed_windows, &processed_spans, max_samples);

    let plan = plan_with(&samples, RATE, &options, Some(&Spans(spans))).unwrap();
    assert!(
        plan.stats
            .provenance
            .iter()
            .any(|entry| entry.contains("core.longform.auto.selected:vad-")),
        "non-EnergyLike VAD must win Auto, got {:?}",
        plan.stats.provenance
    );
    assert_plan_respects_executor_ceiling(&plan, &options);
}

#[test]
fn plan_longform_slices_tenth_second_ceiling_matches_envelope_for_fixed_and_packed() {
    let limit = executor_window_limit_samples(0.1_f32.to_bits(), RATE).unwrap();
    assert_eq!(limit, 1_601);
    assert_eq!(seconds_to_samples(0.1, RATE), 1_600);

    let mut fixed = options_with_mode(LongFormMode::Fixed);
    fixed.chunk_seconds = 0.1;
    fixed.max_chunk_seconds = 0.1;
    fixed.min_chunk_seconds = 0.05;
    fixed.overlap_seconds = 0.0;
    fixed.padding_seconds = 0.0;
    let samples = tone(RATE as usize);
    let fixed_plan = plan(&samples, &fixed);
    assert_plan_respects_executor_ceiling(&fixed_plan, &fixed);

    let mut packed = options_with_mode(LongFormMode::Auto);
    packed.chunk_seconds = 0.1;
    packed.max_chunk_seconds = 0.1;
    packed.min_chunk_seconds = 0.05;
    packed.overlap_seconds = 0.0;
    packed.padding_seconds = 0.0;
    let island = RATE as usize;
    let packed_samples = joined(&[tone(island), silence(island), tone(island)]);
    let packed_plan =
        plan_with(&packed_samples, RATE, &packed, Some(&FixedVadProvider)).unwrap();
    assert!(
        packed_plan.processed_audio.is_some(),
        "0.1s Auto+VAD with a silent hole must select a packed plan, got {:?}",
        packed_plan.stats.provenance
    );
    assert_plan_respects_executor_ceiling(&packed_plan, &packed);

    let processed = joined(&[tone(island), tone(island)]);
    let processed_spans = vec![span(0, island), span(island, island * 2)];
    let packed_windows = windows_of(&processed_spans, &packed, &processed);
    assert_packed_windows_cover_spans(&packed_windows, &processed_spans, limit);
}

#[test]
fn packed_layout_processed_samples_include_window_overlap_cost() {
    let made = layout(
        vec![
            slice(0, AudioSliceKind::Energy, 0, 16_000 * 30),
            slice(
                1,
                AudioSliceKind::Energy,
                16_000 * 30 - 16_000 / 2,
                16_000 * 40,
            ),
        ],
        None,
        packed(
            vec![
                span(0, 16_000 * 20),
                span(16_000 * 20, 16_000 * 40),
            ],
            0,
            16_000 * 40,
        ),
    );
    let mut options = options_with_mode(LongFormMode::Auto);
    options.padding_seconds = 0.0;
    options.max_chunk_seconds = 120.0;
    let estimated = estimate_layout_processed_samples(&made, 16_000 * 40, RATE, &options.at(RATE));
    assert_eq!(estimated, 16_000 * 40 + 16_000 / 2);
}

#[test]
fn packed_candidates_do_not_get_implicit_score_bonus() {
    let mut options = options_with_mode(LongFormMode::Auto);
    options.chunk_seconds = 1.0;
    options.min_chunk_seconds = 0.5;
    options.padding_seconds = 0.0;
    let samples = tone(16_000);
    let made = |processed: Option<usize>| {
        candidate(
            AudioSliceKind::Energy,
            layout(
                vec![slice(0, AudioSliceKind::Energy, 0, 16_000)],
                processed,
                None,
            ),
            &samples,
            16_000,
            &options,
        )
    };
    let identity_candidate = made(None);
    let packed_candidate = made(Some(16_000));
    assert_eq!(
        packed_candidate.processed_samples,
        identity_candidate.processed_samples
    );
    assert_eq!(
        packed_candidate.short_slice_penalty,
        identity_candidate.short_slice_penalty
    );
    assert_eq!(packed_candidate.score, identity_candidate.score);
}

fn with_dip(seconds: usize, dip_at: usize) -> Vec<f32> {
    let mut samples = tone(16_000 * seconds);
    for sample in samples
        .iter_mut()
        .take(16_000 * (dip_at + 1))
        .skip(16_000 * dip_at)
    {
        *sample = 0.0;
    }
    samples
}

#[test]
fn vad_force_cut_lands_on_low_energy_dip_not_arithmetic_boundary() {
    let mut options = options_with_mode(LongFormMode::Vad);
    options.chunk_seconds = 30.0;
    options.max_chunk_seconds = 30.0;
    options.overlap_seconds = 0.5;
    options.energy_split_search_seconds = 5.0;
    let slices = vad_slices_of(&with_dip(45, 27), &options);
    assert!(slices.len() >= 2, "{slices:#?}");
    let cut = slices[0].content_end_sample;
    assert!(
        cut > 16_000 * 27 && cut < 16_000 * 28,
        "cut {cut} did not land on the 27s dip"
    );
    assert!(cut < 16_000 * 29, "cut {cut} landed near the 30s boundary");
    assert_eq!(
        slices[1].content_start_sample,
        cut - 16_000 / 2,
        "{slices:#?}"
    );
}

#[test]
fn energy_cut_lands_on_pause_when_chunk_equals_max() {
    let mut options = options_with_mode(LongFormMode::Energy);
    options.chunk_seconds = 30.0;
    options.max_chunk_seconds = 30.0;
    options.overlap_seconds = 0.5;
    options.energy_split_search_seconds = 5.0;
    options.padding_seconds = 0.0;
    let samples = with_dip(45, 27);
    let measures = measures_of(&samples, samples.len());
    let slices = plan_energy_slices(&measures.meter, samples.len(), RATE, &options.at(RATE));
    assert!(slices.len() >= 2, "{slices:#?}");
    let cut = slices[0].content_end_sample;
    assert!(
        cut > 16_000 * 27 && cut < 16_000 * 28,
        "cut {cut} did not land on the 27s dip"
    );
}

#[test]
fn packed_subdivide_lands_on_pause_when_chunk_equals_max() {
    let mut options = options_with_mode(LongFormMode::Auto);
    options.chunk_seconds = 30.0;
    options.max_chunk_seconds = 30.0;
    options.overlap_seconds = 0.5;
    options.energy_split_search_seconds = 5.0;
    options.padding_seconds = 0.0;
    let samples = with_dip(45, 27);
    let windows = windows_of(&vec![span(0, samples.len())], &options, &samples);
    assert!(windows.len() >= 2, "{windows:#?}");
    let cut = windows[0].end_sample;
    assert!(
        cut > 16_000 * 27 && cut < 16_000 * 28,
        "packed subdivide cut {cut} did not land on the 27s dip"
    );
}

#[test]
fn vad_force_cut_grows_past_chunk_toward_pause_within_ceiling() {
    let mut options = options_with_mode(LongFormMode::Vad);
    options.chunk_seconds = 30.0;
    options.max_chunk_seconds = 55.0;
    options.energy_split_search_seconds = 5.0;
    let slices = vad_slices_of(&with_dip(60, 40), &options);
    let cut = slices[0].content_end_sample;
    assert!(
        cut > 16_000 * 40 && cut < 16_000 * 41,
        "expected growth to the 40s pause, got {cut}"
    );
    assert!(
        cut > 16_000 * 30,
        "region should grow past the 30s chunk target"
    );
    assert!(cut < 16_000 * 55, "region must stay under the 55s ceiling");
}

#[test]
fn vad_force_cut_at_ceiling_widens_overlap_when_pauseless() {
    let mut options = options_with_mode(LongFormMode::Vad);
    options.chunk_seconds = 30.0;
    options.max_chunk_seconds = 40.0;
    options.overlap_seconds = 0.5;
    options.energy_split_search_seconds = 5.0;
    let slices = vad_slices_of(&tone(16_000 * 90), &options);
    assert!(
        slices.len() >= 2,
        "pauseless region must still be split, got {}",
        slices.len()
    );
    let max_chunk_samples = 16_000 * 40;
    for slice in &slices {
        assert!(
            slice.content_duration_samples() <= max_chunk_samples,
            "slice exceeds the ceiling: {slice:?}"
        );
    }
    let overlap = slices[0].content_end_sample - slices[1].content_start_sample;
    assert_eq!(
        overlap, 16_000,
        "forced overlap should widen to 1s, got {overlap}"
    );
    assert!(
        overlap > 16_000 / 2,
        "widened overlap must exceed the 0.5s base"
    );
}

#[test]
fn vad_region_shorter_than_chunk_stays_single_slice() {
    let mut options = options_with_mode(LongFormMode::Vad);
    options.chunk_seconds = 30.0;
    let samples = tone(16_000 * 20);
    let slices = vad_slices_of(&samples, &options);
    assert_eq!(slices.len(), 1);
    assert_eq!(slices[0].content_start_sample, 0);
    assert_eq!(slices[0].content_end_sample, samples.len());
}

#[test]
fn fixed_mode_never_exceeds_zero_margin_family_chunk_cap() {
    let max_chunk_seconds = 30.0f32;
    for total_seconds in [29.9f32, 30.0, 30.2, 60.0] {
        let mut options = options_with_mode(LongFormMode::Fixed);
        options.chunk_seconds = max_chunk_seconds;
        options.max_chunk_seconds = max_chunk_seconds;
        let total_samples = (total_seconds * RATE as f32).round() as usize;
        let plan = plan(&tone(total_samples), &options);
        assert_plan_respects_executor_ceiling(&plan, &options);
        assert_eq!(
            plan.slices
                .last()
                .expect("non-empty plan")
                .content_end_sample,
            total_samples,
            "total_seconds={total_seconds}: plan must still cover the full clip"
        );
    }
}

#[test]
fn auto_mode_never_exceeds_zero_margin_family_chunk_cap_on_pauseless_audio() {
    let max_chunk_seconds = 30.0f32;
    let mut options = options_with_mode(LongFormMode::Auto);
    options.chunk_seconds = max_chunk_seconds;
    options.max_chunk_seconds = max_chunk_seconds;
    let total_samples = (30.2f32 * RATE as f32).round() as usize;
    let plan = plan(&tone(total_samples), &options);
    assert_plan_respects_executor_ceiling(&plan, &options);
    assert_eq!(
        plan.slices
            .last()
            .expect("non-empty plan")
            .content_end_sample,
        total_samples,
        "auto-selected plan must still cover the full clip"
    );
}

/// A far-field meeting: a loud talker for the first six seconds of each minute, then quiet
/// talkers around -50 dBFS, then a silent tail.
fn far_field_speech_below_the_vad_silence_floor(total_seconds: f32) -> Vec<f32> {
    let total_samples = (total_seconds * 16_000.0) as usize;
    let mut state = 0x2545_f491_4f6c_dd1d_u64;
    (0..total_samples)
        .map(|index| {
            state ^= state << 13;
            state ^= state >> 7;
            state ^= state << 17;
            let noise = (state >> 40) as f32 / 8_388_608.0 - 1.0;
            let offset = (index / 16_000) % 60;
            let amplitude = if offset < 6 {
                0.07
            } else if offset < 6 + 49 {
                0.0056
            } else {
                0.0001
            };
            noise * amplitude
        })
        .collect()
}

fn drops_anything_above_the_vad_silence_floor(
    samples: &[f32],
    dropped: &[LongFormVadSlice],
    settings: &Settings,
) -> bool {
    let floor_linear = 10.0_f32.powf(settings.energy_silence_threshold_db / 20.0);
    let window_samples = 16_000 / 2;
    dropped.iter().any(|range| {
        let mut cursor = range.start_sample;
        while cursor < range.end_sample {
            let window_end = (cursor + window_samples).min(range.end_sample);
            if rms(&samples[cursor..window_end]) > floor_linear {
                return true;
            }
            cursor = window_end;
        }
        false
    })
}

#[test]
fn coverage_guard_is_independent_of_the_vad_silence_floor() {
    let samples = far_field_speech_below_the_vad_silence_floor(360.0);
    let mut options = options_with_mode(LongFormMode::Auto);
    options.chunk_seconds = 30.0;

    let packed_layout = packed_energy_layout(&samples, &options)
        .expect("energy VAD must produce a packed candidate for this profile");
    let (_, dropped) = candidate_kept_and_dropped_ranges(&packed_layout, samples.len());
    let dropped_seconds: f32 = dropped
        .iter()
        .map(|range| range.end_sample.saturating_sub(range.start_sample) as f32 / 16_000.0)
        .sum();
    assert!(
        dropped_seconds > 60.0,
        "fixture must exercise a large elision, got {dropped_seconds:.1}s"
    );
    assert!(
        !drops_anything_above_the_vad_silence_floor(&samples, &dropped, &options),
        "the VAD's own floor cannot see the {dropped_seconds:.1}s it elided"
    );

    let made = candidate(
        AudioSliceKind::Energy,
        packed_layout,
        &samples,
        samples.len(),
        &options,
    );
    let (window, _) = measures_of(&samples, samples.len())
        .candidate_drops_audible_content(&made)
        .expect("the audibility reference must see sub-floor speech being dropped");
    let peak_dbfs = dbfs(f32::from_bits(window.level));
    assert!(
        peak_dbfs < options.energy_silence_threshold_db,
        "the flagged window ({peak_dbfs:.1} dBFS) must be one the VAD floor would have cleared"
    );

    let plan = plan(&samples, &options);
    assert!(
        plan.processed_audio.is_none(),
        "auto must fall back to a full-coverage layout: {:?}",
        plan.stats.provenance
    );
    assert!(
        plan.stats.provenance.iter().any(|line| line
            .contains("core.longform.auto.disqualified:energy-packed:coverage_dominance")),
        "the disqualification must be visible in provenance: {:?}",
        plan.stats.provenance
    );
}

#[test]
fn packed_layout_survives_when_the_elided_gaps_are_real_room_tone() {
    let mut samples = Vec::new();
    for block in 0..4 {
        samples.extend(scaled_tone(16_000 * 20, 1.0));
        let mut state = 0x9e37_79b9_7f4a_7c15_u64 ^ (block as u64);
        samples.extend((0..16_000 * 25).map(|_| {
            state ^= state << 13;
            state ^= state >> 7;
            state ^= state << 17;
            ((state >> 40) as f32 / 8_388_608.0 - 1.0) * 0.0004
        }));
    }
    let mut options = options_with_mode(LongFormMode::Auto);
    options.chunk_seconds = 30.0;
    let plan = plan(&samples, &options);
    assert!(
        plan.processed_audio.is_some(),
        "true room-tone gaps must still be packed out: {:?}",
        plan.stats.provenance
    );
}
