//! The parts of a plan, on small numbers.

use openasr_core::longform::duration::{executor_window_limit_samples, ExecutorWindowLimitError};
use openasr_core::longform::energy::{
    choose_forced_cut, find_lowest_energy_split, first_low_energy_split,
    forced_cut_overlap_samples, lowest_energy_split_with_rms, INFINITE_LEVEL,
};
use openasr_core::longform::errors::{
    check_planning_canceled, map_vad_provider_error, LongFormSliceError,
    LongFormSlicePlanningError, LongFormVadProviderError,
};
use openasr_core::longform::layout::{
    candidate_kept_and_dropped_ranges, layout_from_identity_slices,
    plan_packed_layout_from_speech_spans, plan_vad_slices_from_speech_spans,
    LongFormPlanningLayout,
};
use openasr_core::longform::measures::{AudibleWindow, GapEdges, RecordingMeasures};
use openasr_core::longform::options::{LongFormMode, LongFormOptions};
use openasr_core::longform::packing::{
    build_packed_audio_materialization_plan, materialize_packed_audio,
    pack_processed_spans_into_windows, packed_length, subdivide_processed_spans_silence_aware,
    PackedAudioMaterializationPlan,
};
use openasr_core::longform::plan::{can_plan, plan_longform_slices, DroppedAudio};
use openasr_core::longform::provider::{LongFormVadProvider, LongFormVadProviderKind};
use openasr_core::longform::scoring::{
    estimate_layout_processed_samples, estimate_seam_penalty, estimate_short_slice_penalty,
    AutoPlanCandidate,
};
use openasr_core::longform::selection::{
    auto_candidate_label, auto_candidate_timeline_kind, auto_plan_kind_rank,
    prefers_auto_plan_candidate, prune_dominated_vad_candidates, sort_auto_plan_candidates,
};
use openasr_core::longform::slices::{
    advance_window_start, apply_padding, executor_window_end, full_slice, vad_slice, AudioSlice,
    AudioSliceKind, LongFormVadSlice,
};
use openasr_core::longform::spans::{
    coalesce_vad_slices, expand_and_merge_keep_spans, kept_and_dropped, CoalesceLimits,
};
use openasr_core::longform::timeline::{TimelineAnchor, TimelineMap};
use openasr_core::longform::windows::{
    extend_vad_slices_for_span, plan_energy_slices, plan_fixed_slices,
};

fn span(start_sample: usize, end_sample: usize) -> LongFormVadSlice {
    LongFormVadSlice {
        start_sample,
        end_sample,
    }
}

/// Settings at one sample per second.
fn options(mode: LongFormMode) -> LongFormOptions {
    LongFormOptions {
        mode,
        chunk_samples: 100,
        overlap_samples: 10,
        min_chunk_samples: 20,
        padding_samples: 0,
        search_samples: 20,
        max_chunk_seconds_bits: 150.0_f32.to_bits(),
        silence_level: 5,
        gap_bridge_samples: 8,
        seam_samples: 4,
        boundary_window_samples: 6,
        edge_window_samples: 5,
        seam_floor_samples: 2,
        one_second_samples: 15,
        two_second_samples: 30,
        fallback_to_energy_when_vad_unavailable: true,
        fallback_to_energy_when_vad_empty: true,
        carry_prompt_across_slices: false,
        max_context_tokens: 0,
    }
}

fn contents(slices: &[AudioSlice]) -> Vec<(usize, usize)> {
    slices
        .iter()
        .map(|slice| (slice.content_start_sample, slice.content_end_sample))
        .collect()
}

/// Loud everywhere but in one range.
fn quiet_in(from: usize, to: usize) -> impl Fn(usize, usize) -> u32 {
    move |start: usize, end: usize| if start < to && from < end { 5 } else { 100 }
}

// ---------------------------------------------------------------------------
// Windows
// ---------------------------------------------------------------------------

#[test]
fn window_limits_cover_and_no_smaller_count_does() {
    let limit = |seconds: f32, rate: u32| executor_window_limit_samples(seconds.to_bits(), rate);
    assert_eq!(limit(1.5, 3), Ok(5));
    assert_eq!(limit(0.25, 4), Ok(1));
    assert_eq!(limit(f32::MIN_POSITIVE, 48_000), Ok(1));
    for refused in [-1.0, f32::INFINITY, f32::MAX, -0.0] {
        assert!(matches!(
            limit(refused, 16_000),
            Err(ExecutorWindowLimitError::InvalidDuration { .. })
        ));
    }
}

#[test]
fn windows_end_at_the_ceiling_or_with_the_timeline() {
    assert_eq!(executor_window_end(10, 500, 300, 100), 110);
    assert_eq!(executor_window_end(10, 50, 300, 100), 50);
    assert_eq!(executor_window_end(250, 500, 300, 100), 300);
    assert_eq!(executor_window_end(usize::MAX - 1, usize::MAX, usize::MAX, 5), usize::MAX);
}

#[test]
fn the_next_window_moves_forward() {
    assert_eq!(advance_window_start(10, 50, 15), 35);
    assert_eq!(advance_window_start(10, 20, 15), 20);
    assert_eq!(advance_window_start(0, 20, 30), 20);
}

#[test]
fn padding_shrinks_before_content_does() {
    let mut slices = vec![vad_slice(0, 100, 180), vad_slice(1, 5, 10), vad_slice(2, 960, 1000)];
    apply_padding(&mut slices, 1000, 50, 100);
    let fed: Vec<(usize, usize)> = slices
        .iter()
        .map(|slice| (slice.start_sample, slice.end_sample))
        .collect();
    assert_eq!(fed, vec![(90, 190), (0, 57), (930, 1000)]);
    assert_eq!(contents(&slices), vec![(100, 180), (5, 10), (960, 1000)]);
    assert!(slices.iter().all(|slice| slice.duration_samples() <= 100));
    assert_eq!(full_slice(7).content_duration_samples(), 7);
}

#[test]
fn fixed_windows_join_a_short_tail_below_the_ceiling() {
    let settings = options(LongFormMode::Fixed);
    let planned = plan_fixed_slices(250, 1, &settings);
    assert_eq!(contents(&planned), vec![(0, 100), (90, 190), (180, 250)]);
    let joined = plan_fixed_slices(195, 1, &settings);
    assert_eq!(contents(&joined), vec![(0, 100), (90, 195)]);
    let tight = LongFormOptions {
        max_chunk_seconds_bits: 100.0_f32.to_bits(),
        ..settings
    };
    let apart = plan_fixed_slices(195, 1, &tight);
    assert_eq!(contents(&apart), vec![(0, 100), (90, 190), (180, 195)]);
    assert!(plan_fixed_slices(0, 1, &settings).is_empty());
}

#[test]
fn energy_windows_cover_the_recording() {
    let settings = LongFormOptions {
        chunk_samples: 40_000,
        overlap_samples: 1_000,
        min_chunk_samples: 2_000,
        search_samples: 8_000,
        max_chunk_seconds_bits: 60_000.0_f32.to_bits(),
        ..options(LongFormMode::Energy)
    };
    let planned = plan_energy_slices(&quiet_in(36_000, 36_500), 100_000, 1, &settings);
    let covered = contents(&planned);
    assert_eq!(covered[0], (0, 36_000));
    assert_eq!(covered[covered.len() - 1].1, 100_000);
    for pair in covered.windows(2) {
        assert!(pair[0].0 < pair[1].0 && pair[1].0 <= pair[0].1);
    }
}

#[test]
fn voiced_regions_are_cut_at_pauses_or_with_a_wider_overlap() {
    let settings = LongFormOptions {
        chunk_samples: 40_000,
        overlap_samples: 1_000,
        search_samples: 8_000,
        one_second_samples: 2_000,
        two_second_samples: 4_000,
        max_chunk_seconds_bits: 60_000.0_f32.to_bits(),
        ..options(LongFormMode::Vad)
    };
    let mut paused = Vec::new();
    extend_vad_slices_for_span(
        &mut paused,
        &quiet_in(36_000, 36_500),
        70_000,
        0,
        70_000,
        1,
        &settings,
    );
    assert_eq!(contents(&paused), vec![(0, 36_000), (35_000, 70_000)]);
    let mut pauseless = Vec::new();
    extend_vad_slices_for_span(
        &mut pauseless,
        &|_: usize, _: usize| 100,
        70_000,
        0,
        70_000,
        1,
        &settings,
    );
    let cut = pauseless[0].content_end_sample;
    assert_eq!(pauseless[1].content_start_sample, cut - 2_000);
    assert_eq!(pauseless[1].content_end_sample, 70_000);
}

// ---------------------------------------------------------------------------
// Cuts
// ---------------------------------------------------------------------------

#[test]
fn the_quietest_frame_is_split_in_its_middle() {
    let meter = quiet_in(4_800, 6_400);
    assert_eq!(find_lowest_energy_split(&meter, 16_000, 0, 16_000), Some(5_600));
    assert_eq!(
        lowest_energy_split_with_rms(&meter, 16_000, 0, 20_000),
        Some((5_600, 5))
    );
    assert_eq!(find_lowest_energy_split(&meter, 16_000, 16_000, 20_000), None);
    let nothing_finite = |_: usize, _: usize| INFINITE_LEVEL;
    assert_eq!(find_lowest_energy_split(&nothing_finite, 16_000, 0, 16_000), None);
    // Of equals the earliest.
    let even = |_: usize, _: usize| 7;
    assert_eq!(find_lowest_energy_split(&even, 16_000, 0, 16_000), Some(800));
}

#[test]
fn the_first_quiet_frame_is_at_or_below_the_threshold() {
    let meter = quiet_in(4_800, 6_400);
    assert_eq!(first_low_energy_split(&meter, 16_000, 0, 16_000, 5), Some(5_600));
    assert_eq!(first_low_energy_split(&meter, 16_000, 0, 16_000, 4), None);
    // Nothing lies at or below what is no number.
    assert_eq!(
        first_low_energy_split(&meter, 16_000, 0, 16_000, f32::NAN.to_bits()),
        None
    );
}

#[test]
fn forced_cuts_prefer_a_pause_nearby_then_a_later_one_then_the_ceiling() {
    let near = quiet_in(4_800, 6_400);
    assert_eq!(
        choose_forced_cut(&near, 16_000, 6_000, 12_000, 1, 2_000, 5),
        (4_800, false)
    );
    let later = quiet_in(9_000, 9_500);
    assert_eq!(
        choose_forced_cut(&later, 16_000, 4_000, 12_000, 1, 1_000, 5),
        (9_000, false)
    );
    assert_eq!(
        choose_forced_cut(&near, 16_000, 6_000, 12_000, 1, 2_000, 4),
        (10_800, true)
    );
    // Never before the floor.
    assert_eq!(
        choose_forced_cut(&near, 16_000, 6_000, 12_000, 5_500, 2_000, 5).0 >= 5_500,
        true
    );
}

#[test]
fn forced_overlap_widens_within_bounds() {
    assert_eq!(forced_cut_overlap_samples(8_000, 16_000, 32_000, 480_000), 16_000);
    assert_eq!(forced_cut_overlap_samples(24_000, 16_000, 32_000, 480_000), 24_000);
    assert_eq!(forced_cut_overlap_samples(40_000, 16_000, 32_000, 480_000), 32_000);
    assert_eq!(forced_cut_overlap_samples(80_000, 16_000, 32_000, 480_000), 32_000);
    assert_eq!(forced_cut_overlap_samples(8_000, 16_000, 32_000, 10), 9);
    assert_eq!(forced_cut_overlap_samples(8_000, 16_000, 32_000, 0), 1);
}

// ---------------------------------------------------------------------------
// Spans
// ---------------------------------------------------------------------------

#[test]
fn coalescing_joins_near_speech_in_order() {
    let limits = CoalesceLimits {
        target_chunk_samples: 1000,
        min_chunk_samples: 100,
        gap_bridge_samples: 50,
    };
    let speech = vec![span(600, 700), span(0, 200), span(240, 400), span(1_900, 2_500)];
    assert_eq!(
        coalesce_vad_slices(speech, limits, 2_000),
        vec![span(0, 400), span(600, 700), span(1_900, 2_000)]
    );
    // A region below the least length reaches across any pause.
    assert_eq!(
        coalesce_vad_slices(vec![span(0, 50), span(500, 600)], limits, 2_000),
        vec![span(0, 600)]
    );
    // No region grows past the target.
    assert_eq!(
        coalesce_vad_slices(vec![span(0, 900), span(910, 1_200)], limits, 2_000),
        vec![span(0, 900), span(910, 1_200)]
    );
    assert!(coalesce_vad_slices(vec![span(2_000, 2_100)], limits, 2_000).is_empty());
}

#[test]
fn kept_spans_are_widened_and_merged() {
    assert_eq!(
        expand_and_merge_keep_spans(
            vec![span(100, 200), span(230, 300), span(500, 600)],
            610,
            20
        ),
        vec![span(80, 320), span(480, 610)]
    );
}

#[test]
fn kept_and_dropped_ranges_split_the_recording() {
    let (kept, dropped) = kept_and_dropped(
        &vec![span(150, 300), span(100, 200), span(900, 1_200)],
        1_000,
    );
    assert_eq!(kept, vec![span(100, 300), span(900, 1_000)]);
    // What comes before and behind is named even where it is empty.
    assert_eq!(dropped, vec![span(0, 100), span(300, 900), span(1_000, 1_000)]);
    let all = |ranges: &[LongFormVadSlice]| -> usize {
        ranges
            .iter()
            .map(|range| range.end_sample - range.start_sample)
            .sum()
    };
    assert_eq!(all(&kept) + all(&dropped), 1_000);
}

// ---------------------------------------------------------------------------
// Packed timelines
// ---------------------------------------------------------------------------

#[test]
fn packed_timelines_lay_spans_behind_seams() {
    let (plan, timeline, processed) =
        build_packed_audio_materialization_plan(&vec![span(100, 200), span(300, 350)], 1_000, 10)
            .expect("both spans can be packed");
    assert_eq!(plan.processed_samples, 160);
    let anchor = |processed_sample: usize, original_sample: usize| TimelineAnchor {
        processed_sample,
        original_sample,
    };
    assert_eq!(
        timeline.anchors,
        vec![
            anchor(0, 100),
            anchor(100, 200),
            anchor(100, 200),
            anchor(110, 300),
            anchor(160, 350)
        ]
    );
    assert_eq!(processed, vec![span(0, 100), span(110, 160)]);

    let samples: Vec<i32> = (0..1_000).collect();
    let audio = materialize_packed_audio(&samples, &plan, -1, &|| false).unwrap();
    assert_eq!(audio.len(), 160);
    assert_eq!(audio[..100], samples[100..200]);
    assert_eq!(audio[100..110], [-1; 10]);
    assert_eq!(audio[110..], samples[300..350]);
    assert_eq!(
        materialize_packed_audio(&samples, &plan, -1, &|| true),
        Err(LongFormSliceError::Canceled)
    );
    assert!(build_packed_audio_materialization_plan(&vec![span(5, 5)], 1_000, 10).is_none());
    assert!(build_packed_audio_materialization_plan(&vec![span(5, 1_001)], 1_000, 10).is_none());
}

#[test]
fn timelines_that_cannot_be_held_are_not_offered() {
    let kept = vec![span(100, 200), span(300, 350)];
    assert_eq!(packed_length(&kept, 1_000, 10), Some(160));
    assert_eq!(packed_length(&kept, 320, 10), Some(100));
    assert_eq!(packed_length(&kept, 1_000, usize::MAX / 2 - 150), Some(usize::MAX / 2));
    assert_eq!(packed_length(&kept, 1_000, usize::MAX / 2 - 149), None);
    assert_eq!(packed_length(&kept, 1_000, usize::MAX), None);
    let settings = LongFormOptions {
        seam_samples: usize::MAX,
        ..options(LongFormMode::Auto)
    };
    assert!(can_plan(&settings, 1, 500));
    assert!(plan_packed_layout_from_speech_spans(
        &|_: usize, _: usize| 100,
        &same_sample,
        500,
        1,
        &settings,
        AudioSliceKind::Vad,
        vec![span(20, 60), span(400, 450)],
    )
    .is_none());
}

fn same_sample(_: &TimelineMap, processed: usize) -> usize {
    processed
}

#[test]
fn packed_windows_tile_what_was_packed() {
    let settings = LongFormOptions {
        chunk_samples: 10_000,
        min_chunk_samples: 1_000,
        overlap_samples: 500,
        search_samples: 2_000,
        max_chunk_seconds_bits: 12_000.0_f32.to_bits(),
        ..options(LongFormMode::Auto)
    };
    let processed = vec![span(0, 8_000), span(8_004, 34_000)];
    let meter = |_: usize, _: usize| 100;
    let pieces = subdivide_processed_spans_silence_aware(
        &processed,
        1,
        &settings,
        &meter,
        34_000,
        &same_sample,
        &TimelineMap::identity(),
    );
    assert_eq!(pieces[0], span(0, 8_000));
    assert_eq!(pieces[1].start_sample, 8_004);
    assert_eq!(pieces[pieces.len() - 1].end_sample, 34_000);
    for pair in pieces[1..].windows(2) {
        assert_eq!(pair[0].end_sample, pair[1].start_sample);
    }
    let windows = pack_processed_spans_into_windows(
        &processed,
        1,
        &settings,
        &meter,
        34_000,
        &same_sample,
        &TimelineMap::identity(),
    );
    assert_eq!(windows[0].start_sample, 0);
    assert_eq!(windows[windows.len() - 1].end_sample, 34_000);
    for pair in windows.windows(2) {
        assert!(pair[1].start_sample <= pair[0].end_sample);
    }
    assert!(windows
        .iter()
        .all(|window| window.end_sample - window.start_sample <= 12_000));
}

#[test]
fn packed_layouts_keep_all_speech() {
    let settings = LongFormOptions {
        padding_samples: 3,
        ..options(LongFormMode::Auto)
    };
    let speech = vec![span(400, 450), span(20, 60)];
    let layout = plan_packed_layout_from_speech_spans(
        &|_: usize, _: usize| 100,
        &same_sample,
        500,
        1,
        &settings,
        AudioSliceKind::Vad,
        speech,
    )
    .expect("there is speech");
    let (kept, dropped) = candidate_kept_and_dropped_ranges(&layout, 500);
    assert_eq!(kept, vec![span(17, 63), span(397, 453)]);
    assert_eq!(dropped, vec![span(0, 17), span(63, 397), span(453, 500)]);
    assert!(plan_packed_layout_from_speech_spans(
        &|_: usize, _: usize| 100,
        &same_sample,
        500,
        1,
        &settings,
        AudioSliceKind::Vad,
        Vec::new(),
    )
    .is_none());
    let slices = plan_vad_slices_from_speech_spans(
        &|_: usize, _: usize| 100,
        500,
        1,
        &settings,
        vec![span(400, 450), span(20, 60)],
    );
    assert_eq!(contents(&slices), vec![(20, 60), (400, 450)]);
}

// ---------------------------------------------------------------------------
// Candidates
// ---------------------------------------------------------------------------

fn packed_plan(spans: Vec<LongFormVadSlice>, processed_samples: usize) -> LongFormPlanningLayout {
    LongFormPlanningLayout {
        slices: vec![vad_slice(0, 0, processed_samples)],
        processed_audio_samples: None,
        packed_audio_plan: Some(PackedAudioMaterializationPlan {
            spans,
            seam_samples: 4,
            processed_samples,
        }),
        timeline: TimelineMap::identity(),
        selection_provenance: Vec::new(),
    }
}

fn scored(kind: AudioSliceKind, score: u128, layout: LongFormPlanningLayout) -> AutoPlanCandidate {
    AutoPlanCandidate {
        kind,
        layout,
        score,
        processed_samples: 10,
        short_slice_penalty: 0,
        boundary_penalty: 0,
        elision_penalty: 0,
        gap_edge_penalty: 0,
        seam_penalty: 0,
        extra_chunk_penalty: 0,
        stability_bias: 0,
        contextual_credit: 0,
        contextual_penalty: 0,
    }
}

fn whole_plan() -> LongFormPlanningLayout {
    layout_from_identity_slices(vec![full_slice(10)])
}

#[test]
fn candidates_are_named_after_planner_and_timeline() {
    let identity = scored(AudioSliceKind::Energy, 0, whole_plan());
    assert_eq!(auto_candidate_timeline_kind(&identity), "identity");
    assert_eq!(auto_candidate_label(&identity), "energy-identity");
    let packed = scored(AudioSliceKind::Vad, 0, packed_plan(vec![span(0, 10)], 10));
    assert_eq!(auto_candidate_label(&packed), "vad-packed");
}

#[test]
fn selection_orders_by_preference() {
    let made = |kind: AudioSliceKind, score: u128| scored(kind, score, whole_plan());
    let sorted = sort_auto_plan_candidates(vec![
        made(AudioSliceKind::Fixed, 3),
        made(AudioSliceKind::Vad, 2),
        made(AudioSliceKind::Full, 2),
        made(AudioSliceKind::Energy, 2),
        made(AudioSliceKind::Fixed, 1),
    ]);
    let order: Vec<(u128, AudioSliceKind)> = sorted
        .iter()
        .map(|candidate| (candidate.score, candidate.kind))
        .collect();
    assert_eq!(
        order,
        vec![
            (1, AudioSliceKind::Fixed),
            (2, AudioSliceKind::Energy),
            (2, AudioSliceKind::Vad),
            (2, AudioSliceKind::Full),
            (3, AudioSliceKind::Fixed),
        ]
    );
    assert!(prefers_auto_plan_candidate(&sorted[0], &sorted[1]));
    assert!(!prefers_auto_plan_candidate(&sorted[1], &sorted[1]));
    assert_eq!(auto_plan_kind_rank(AudioSliceKind::Fixed), 2);
}

#[test]
fn pruning_spares_what_nothing_dominates() {
    let better = AutoPlanCandidate {
        processed_samples: 9,
        ..scored(AudioSliceKind::Vad, 0, whole_plan())
    };
    let kept =
        prune_dominated_vad_candidates(vec![better, scored(AudioSliceKind::Energy, 0, whole_plan())]);
    assert_eq!(kept.len(), 2);
}

#[test]
fn costs_are_counted_in_samples() {
    let settings = options(LongFormMode::Auto);
    let made = packed_plan(vec![span(0, 30), span(50, 60), span(90, 100)], 58);
    // Two seams, each at its own length, which is above a forty-eighth of a chunk.
    assert_eq!(estimate_seam_penalty(&made, &settings), 8);
    assert_eq!(estimate_seam_penalty(&whole_plan(), &settings), 0);
    // Half a chunk is long enough.
    assert_eq!(
        estimate_short_slice_penalty(&vec![vad_slice(0, 0, 30), vad_slice(1, 30, 100)], &settings),
        20
    );
    assert_eq!(
        estimate_layout_processed_samples(&made, 100, 1, &settings),
        58
    );
}

// ---------------------------------------------------------------------------
// Plans
// ---------------------------------------------------------------------------

fn no_cost(_: usize, _: usize, _: usize) -> usize {
    0
}

fn no_elision_cost(_: &Vec<LongFormVadSlice>, _: usize, _: usize) -> usize {
    0
}

fn no_edge_cost(_: &Vec<LongFormVadSlice>, _: GapEdges, _: usize) -> usize {
    0
}

/// Everything in `[70, 80)` can be heard.
fn heard(_: &Vec<LongFormVadSlice>, start: usize, end: usize) -> Option<AudibleWindow> {
    if start < 80 && 70 < end {
        Some(AudibleWindow {
            start_sample: start.max(70),
            end_sample: end.min(80),
            level: 100,
        })
    } else {
        None
    }
}

fn evidence(
    _: &Vec<LongFormVadSlice>,
    dropped: &Vec<LongFormVadSlice>,
    window: AudibleWindow,
) -> String {
    format!("{} ranges, first heard at {}", dropped.len(), window.start_sample)
}

fn measures(
    sample_count: usize,
) -> RecordingMeasures<
    impl Fn(usize, usize) -> u32,
    impl Fn(&TimelineMap, usize) -> usize,
    impl Fn(usize, usize, usize) -> usize,
    impl Fn(&Vec<LongFormVadSlice>, usize, usize) -> usize,
    impl Fn(&Vec<LongFormVadSlice>, GapEdges, usize) -> usize,
    impl Fn(&Vec<LongFormVadSlice>, usize, usize) -> Option<AudibleWindow>,
    impl Fn(&Vec<LongFormVadSlice>, &Vec<LongFormVadSlice>, AudibleWindow) -> String,
> {
    RecordingMeasures {
        sample_count,
        meter: |_: usize, _: usize| 100,
        mapper: same_sample,
        boundary_cost: no_cost,
        elision_cost: no_elision_cost,
        edge_cost: no_edge_cost,
        audible_window: heard,
        drop_evidence: evidence,
    }
}

struct Speech(Vec<LongFormVadSlice>);

impl LongFormVadProvider<u8> for Speech {
    fn compute_speech_slices(
        &self,
        _samples: &[u8],
        _sample_rate_hz: u32,
        _options: &LongFormOptions,
    ) -> Result<Vec<LongFormVadSlice>, String> {
        Ok(self.0.clone())
    }
}

#[test]
fn dropped_audio_names_what_can_be_heard() {
    let measures = measures(100);
    let lossy = packed_plan(vec![span(0, 50), span(60, 65), span(90, 100)], 73);
    let report = measures.dropped_audio(&lossy).expect("something is dropped");
    assert_eq!(report.kept, vec![span(0, 50), span(60, 65), span(90, 100)]);
    assert_eq!(
        report.dropped,
        vec![span(0, 0), span(50, 60), span(65, 90), span(100, 100)]
    );
    assert_eq!(report.audible.len(), 1);
    assert_eq!(report.audible[0].0, span(65, 90));
    assert_eq!(report.audible[0].1.start_sample, 70);

    let heard = measures
        .candidate_drops_audible_content(&scored(AudioSliceKind::Vad, 0, lossy))
        .expect("something audible is dropped");
    assert_eq!(heard.1, "core.longform.auto.disqualified:vad-packed:coverage_dominance:drops_audible_content_near_recording_speech_level:4 ranges, first heard at 70");
    let careful = packed_plan(vec![span(0, 50), span(60, 100)], 94);
    assert!(measures
        .candidate_drops_audible_content(&scored(AudioSliceKind::Vad, 0, careful))
        .is_none());
}

#[test]
fn a_plan_without_losses_outlives_one_that_drops_something_audible() {
    let measures = measures(100);
    let lossy = || packed_plan(vec![span(0, 50)], 50);
    let (left, notes) = measures.enforce_coverage_dominance(vec![
        scored(AudioSliceKind::Vad, 0, lossy()),
        scored(
            AudioSliceKind::Energy,
            0,
            layout_from_identity_slices(vec![full_slice(100)]),
        ),
    ]);
    assert_eq!(left.len(), 1);
    assert_eq!(left[0].kind, AudioSliceKind::Energy);
    assert_eq!(notes.len(), 1);
    assert!(notes[0].contains("core.longform.auto.disqualified:vad-packed:coverage_dominance"));
    // With nothing better at hand the lossy plan stays.
    let (alone, _) =
        measures.enforce_coverage_dominance(vec![scored(AudioSliceKind::Vad, 0, lossy())]);
    assert_eq!(alone.len(), 1);
}

fn planned(mode: LongFormMode, speech: Vec<LongFormVadSlice>, samples: &[u8]) -> Vec<AudioSlice> {
    let settings = options(mode);
    assert!(can_plan(&settings, 1, samples.len()));
    plan_longform_slices(
        samples,
        0,
        1,
        &settings,
        Ok(()),
        &measures(samples.len()),
        &Speech(vec![span(0, samples.len())]),
        Some(&Speech(speech)),
        &|_: &DroppedAudio| {},
    )
    .unwrap()
    .slices
}

#[test]
fn modes_choose_their_planner() {
    let samples = [0_u8; 130];
    let off = planned(LongFormMode::Off, Vec::new(), &samples);
    assert_eq!(contents(&off), vec![(0, 130)]);
    assert_eq!(off[0].kind, AudioSliceKind::Full);
    let fixed = planned(LongFormMode::Fixed, Vec::new(), &samples);
    assert_eq!(contents(&fixed), vec![(0, 100), (90, 130)]);
    let vad = planned(LongFormMode::Vad, vec![span(10, 40)], &samples);
    assert_eq!(contents(&vad), vec![(10, 40)]);
    assert_eq!(vad[0].kind, AudioSliceKind::Vad);
    // A detector that finds nothing hands over to the energy planner.
    let empty = planned(LongFormMode::Vad, Vec::new(), &samples);
    assert_eq!(empty[0].kind, AudioSliceKind::Energy);
    // A recording that fits one chunk stays whole.
    let short = planned(LongFormMode::Auto, vec![span(10, 40)], &samples[..100]);
    assert_eq!(contents(&short), vec![(0, 100)]);
}

#[test]
fn a_request_that_is_canceled_throughout_is_answered_so() {
    let samples = [0_u8; 300];
    let plan = |rate: u32, validation: Result<(), String>, samples: &[u8], canceled: bool| {
        measures(samples.len())
            .plan_longform_slices_with_materialization_gate(
                samples,
                0,
                rate,
                &options(LongFormMode::Auto),
                validation,
                &Speech(vec![span(0, samples.len())]),
                Some(&Speech(vec![span(10, 40)])),
                &|| canceled,
                &|_: &DroppedAudio| assert!(!canceled),
                |_: usize| Ok::<(), ()>(()),
            )
            .map(|plan| plan.slices.len())
    };
    let refused = |error: LongFormSliceError| Err(LongFormSlicePlanningError::Planning(error));
    let invalid = || Err("chunk".to_string());
    for rate in [0, 1] {
        for count in [0, 300] {
            let answer = refused(LongFormSliceError::Canceled);
            assert_eq!(plan(rate, Ok(()), &samples[..count], true), answer);
            assert_eq!(plan(rate, invalid(), &samples[..count], true), answer);
        }
    }
    assert_eq!(
        plan(0, invalid(), &samples, false),
        refused(LongFormSliceError::InvalidSampleRate)
    );
    assert_eq!(
        plan(1, invalid(), &samples[..0], false),
        refused(LongFormSliceError::InvalidOptions {
            reason: "chunk".to_string()
        })
    );
    assert_eq!(plan(1, Ok(()), &samples[..0], false), Ok(0));
    assert!(plan(1, Ok(()), &samples, false).is_ok());
}

#[test]
fn settings_that_cannot_be_planned_are_known_beforehand() {
    let settings = options(LongFormMode::Auto);
    assert!(can_plan(&settings, 1, 1_000));
    assert!(!can_plan(&settings, 0, 1_000));
    let endless = LongFormOptions {
        max_chunk_seconds_bits: f32::INFINITY.to_bits(),
        ..settings
    };
    assert!(!can_plan(&endless, 1, 1_000));
}

#[test]
fn planning_errors_say_what_failed() {
    assert_eq!(
        LongFormSliceError::Canceled.message(),
        "longform slice planning was canceled"
    );
    assert_eq!(
        LongFormSliceError::VadUnavailable.message(),
        "longform mode 'vad' requested but no VAD provider is configured"
    );
    let failed = LongFormVadProviderError::Failed {
        reason: "no model".to_string(),
    };
    assert_eq!(failed.message(), "no model");
    assert_eq!(
        map_vad_provider_error(failed).message(),
        "longform VAD provider failed: no model"
    );
    assert_eq!(
        LongFormVadProviderError::Canceled.message(),
        "longform VAD provider was canceled"
    );
    assert_eq!(
        map_vad_provider_error(LongFormVadProviderError::Canceled),
        LongFormSliceError::Canceled
    );
    assert_eq!(check_planning_canceled(&|| false), Ok(()));
    assert_eq!(
        check_planning_canceled(&|| true),
        Err(LongFormSliceError::Canceled)
    );
    let wrapped: LongFormSlicePlanningError<u8> = LongFormSliceError::Canceled.into();
    assert_eq!(
        wrapped,
        LongFormSlicePlanningError::Planning(LongFormSliceError::Canceled)
    );
}

#[test]
fn detectors_are_custom_unless_they_say_otherwise() {
    assert!(matches!(
        LongFormVadProvider::<u8>::provider_kind(&Speech(Vec::new())),
        LongFormVadProviderKind::Custom
    ));
    // Where a detector cannot be interrupted, it is asked before and after.
    let stopped = Speech(Vec::new()).compute_speech_slices_cancellable(
        &[0_u8],
        1,
        &options(LongFormMode::Vad),
        &|| true,
    );
    assert_eq!(stopped, Err(LongFormVadProviderError::Canceled));
}
