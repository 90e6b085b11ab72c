//! What a layout costs: the candidates among which automatic planning chooses.

use vstd::math::*;
use vstd::prelude::*;

use crate::longform::layout::{candidate_kept_and_dropped_ranges, Layout, LongFormPlanningLayout};
use crate::longform::measures::{Acoustics, AudibleWindow, GapEdges, RecordingMeasures};
use crate::longform::options::LongFormOptions;
use crate::longform::slices;
use crate::longform::slices::{
    apply_padding, larger, smaller, AudioSlice, AudioSliceKind, LongFormVadSlice,
};
use crate::longform::timeline::{original_of, TimelineMap};

verus! {

/// A layout with its costs.
#[derive(Debug, PartialEq, Eq)]
pub struct AutoPlanCandidate {
    pub kind: AudioSliceKind,
    pub score: u128,
    pub processed_samples: usize,
    pub short_slice_penalty: usize,
    pub boundary_penalty: usize,
    pub elision_penalty: usize,
    pub gap_edge_penalty: usize,
    pub seam_penalty: usize,
    pub extra_chunk_penalty: u128,
    pub stability_bias: u128,
    pub contextual_credit: u128,
    pub contextual_penalty: u128,
    pub layout: LongFormPlanningLayout,
}

/// An [`AutoPlanCandidate`] as a value.
#[verifier::ext_equal]
pub struct Candidate {
    pub kind: AudioSliceKind,
    pub score: u128,
    pub processed_samples: usize,
    pub short_slice_penalty: usize,
    pub boundary_penalty: usize,
    pub elision_penalty: usize,
    pub gap_edge_penalty: usize,
    pub seam_penalty: usize,
    pub extra_chunk_penalty: u128,
    pub stability_bias: u128,
    pub contextual_credit: u128,
    pub contextual_penalty: u128,
    pub layout: Layout,
}

impl View for AutoPlanCandidate {
    type V = Candidate;

    open spec fn view(&self) -> Candidate {
        Candidate {
            kind: self.kind,
            score: self.score,
            processed_samples: self.processed_samples,
            short_slice_penalty: self.short_slice_penalty,
            boundary_penalty: self.boundary_penalty,
            elision_penalty: self.elision_penalty,
            gap_edge_penalty: self.gap_edge_penalty,
            seam_penalty: self.seam_penalty,
            extra_chunk_penalty: self.extra_chunk_penalty,
            stability_bias: self.stability_bias,
            contextual_credit: self.contextual_credit,
            contextual_penalty: self.contextual_penalty,
            layout: self.layout@,
        }
    }
}

/// A sum as far as a `usize` can count.
pub open spec fn capped(value: int) -> usize {
    min(value, usize::MAX as int) as usize
}

// ---------------------------------------------------------------------------
// Samples that are decoded
// ---------------------------------------------------------------------------

/// Samples in the fed windows of the first `count` slices.
pub open spec fn fed_samples(planned: Seq<AudioSlice>, count: int) -> int
    decreases count,
{
    if count <= 0 {
        0
    } else {
        fed_samples(planned, count - 1) + planned[count - 1].duration()
    }
}

/// Samples that the executor would be fed: those of the padded slices, and for a packed
/// timeline at least its length.
pub open spec fn processed_estimate(
    layout: Layout,
    total: int,
    options: LongFormOptions,
    ceiling: int,
) -> usize {
    match layout.processed_audio_samples {
        Some(samples) => samples,
        None => match layout.packed {
            Some(plan) => max(
                capped(fed_samples(layout.slices, layout.slices.len() as int)) as int,
                plan.processed_samples as int,
            ) as usize,
            None => capped(
                fed_samples(
                    slices::padded_slices(
                        layout.slices,
                        total,
                        options.padding_samples as int,
                        ceiling,
                    ),
                    layout.slices.len() as int,
                ),
            ),
        },
    }
}

proof fn lemma_fed_samples_grow(planned: Seq<AudioSlice>, count: int)
    ensures
        fed_samples(planned, count) >= 0,
    decreases count,
{
    if count > 0 {
        lemma_fed_samples_grow(planned, count - 1);
    }
}

fn sum_of_durations(planned: &Vec<AudioSlice>) -> (sum: usize)
    ensures
        sum == capped(fed_samples(planned@, planned.len() as int)),
{
    let mut sum: usize = 0;
    let mut at: usize = 0;
    while at < planned.len()
        invariant
            at <= planned.len(),
            sum == capped(fed_samples(planned@, at as int)),
        decreases planned.len() - at,
    {
        proof {
            lemma_fed_samples_grow(planned@, at as int);
        }
        sum = sum.saturating_add(planned[at].duration_samples());
        at = at + 1;
    }
    sum
}

/// Samples that the executor would be fed for a layout.
pub fn estimate_layout_processed_samples(
    layout: &LongFormPlanningLayout,
    total_samples: usize,
    sample_rate_hz: u32,
    options: &LongFormOptions,
) -> (samples: usize)
    requires
        options.has_ceiling(sample_rate_hz),
    ensures
        samples == processed_estimate(
            layout@,
            total_samples as int,
            *options,
            options.ceiling(sample_rate_hz),
        ),
{
    if let Some(samples) = layout.processed_audio_samples {
        return samples;
    }
    if let Some(plan) = &layout.packed_audio_plan {
        return larger(sum_of_durations(&layout.slices), plan.processed_samples);
    }
    let mut estimated: Vec<AudioSlice> = copied_slices(&layout.slices);
    apply_padding(
        &mut estimated,
        total_samples,
        options.padding_samples,
        options.max_chunk_samples(sample_rate_hz),
    );
    sum_of_durations(&estimated)
}

fn copied_slices(planned: &Vec<AudioSlice>) -> (copy: Vec<AudioSlice>)
    ensures
        copy@ == planned@,
{
    let mut copy: Vec<AudioSlice> = Vec::new();
    let mut at: usize = 0;
    while at < planned.len()
        invariant
            at <= planned.len(),
            copy@ == planned@.take(at as int),
        decreases planned.len() - at,
    {
        copy.push(planned[at]);
        at = at + 1;
        assert(copy@ =~= planned@.take(at as int));
    }
    assert(copy@ =~= planned@);
    copy
}

// ---------------------------------------------------------------------------
// Short slices
// ---------------------------------------------------------------------------

/// Length below which a slice is charged: half a chunk, or twice the least chunk.
pub open spec fn desired_length(options: LongFormOptions) -> int {
    max(
        max(options.chunk_samples as int, 1) / 2,
        capped(options.min_chunk_samples * 2) as int,
    )
}

/// What the first `count` slices lack of the desired length.
pub open spec fn shortage(planned: Seq<AudioSlice>, count: int, desired: int) -> int
    decreases count,
{
    if count <= 0 {
        0
    } else {
        shortage(planned, count - 1, desired) + max(
            0,
            desired - planned[count - 1].content_duration(),
        )
    }
}

proof fn lemma_shortage_grows(planned: Seq<AudioSlice>, count: int, desired: int)
    ensures
        shortage(planned, count, desired) >= 0,
    decreases count,
{
    if count > 0 {
        lemma_shortage_grows(planned, count - 1, desired);
    }
}

/// Charges a plan for slices shorter than desired, by what they lack.
pub fn estimate_short_slice_penalty(
    planned: &Vec<AudioSlice>,
    options: &LongFormOptions,
) -> (penalty: usize)
    ensures
        penalty == capped(
            shortage(planned@, planned.len() as int, desired_length(*options)),
        ),
{
    let chunk_samples: usize = larger(options.chunk_samples, 1);
    let min_desired: usize = larger(
        chunk_samples / 2,
        options.min_chunk_samples.saturating_add(options.min_chunk_samples),
    );
    let mut penalty: usize = 0;
    let mut at: usize = 0;
    while at < planned.len()
        invariant
            at <= planned.len(),
            min_desired == desired_length(*options),
            penalty == capped(shortage(planned@, at as int, min_desired as int)),
        decreases planned.len() - at,
    {
        proof {
            lemma_shortage_grows(planned@, at as int, min_desired as int);
        }
        let lacking: usize = min_desired.saturating_sub(planned[at].content_duration_samples());
        penalty = penalty.saturating_add(lacking);
        at = at + 1;
    }
    penalty
}

// ---------------------------------------------------------------------------
// Seams
// ---------------------------------------------------------------------------

/// Charge for the seams of a packed timeline that fall inside slices.
pub open spec fn seam_charge(layout: Layout, options: LongFormOptions) -> usize {
    match layout.packed {
        None => 0,
        Some(plan) => {
            let count = max(0, plan.spans.len() - layout.slices.len());
            let each = max(
                max(max(options.chunk_samples as int, 1) / 48, plan.seam_samples as int),
                options.seam_floor_samples as int,
            );
            capped(count * each)
        },
    }
}

/// A product as far as a `usize` can count.
pub(crate) fn saturating_product(a: usize, b: usize) -> (product: usize)
    ensures
        product == capped(a * b),
{
    match a.checked_mul(b) {
        Some(product) => product,
        None => usize::MAX,
    }
}

/// Charges a packed plan for every seam that ends up inside a slice.
pub fn estimate_seam_penalty(
    layout: &LongFormPlanningLayout,
    options: &LongFormOptions,
) -> (penalty: usize)
    ensures
        penalty == seam_charge(layout@, *options),
{
    if let Some(plan) = &layout.packed_audio_plan {
        let seam_count: usize = plan.spans.len().saturating_sub(layout.slices.len());
        if seam_count == 0 {
            assert(0 * max(
                max(max(options.chunk_samples as int, 1) / 48, plan.seam_samples as int),
                options.seam_floor_samples as int,
            ) == 0) by (nonlinear_arith);
            return 0;
        }
        let chunk_samples: usize = larger(options.chunk_samples, 1);
        let per_seam_penalty: usize = larger(
            larger(chunk_samples / 48, plan.seam_samples),
            options.seam_floor_samples,
        );
        return saturating_product(seam_count, per_seam_penalty);
    }
    0
}

// ---------------------------------------------------------------------------
// Loudness at the cuts
// ---------------------------------------------------------------------------

/// Window measured round a boundary.
pub open spec fn boundary_window(options: LongFormOptions) -> int {
    max(options.boundary_window_samples as int, 1)
}

/// Scale of a boundary's cost.
pub open spec fn boundary_scale(options: LongFormOptions) -> int {
    max(max(options.chunk_samples as int, 1) / 8, boundary_window(options))
}

/// Cost of the boundary behind slice `i`: that of the window round it in the recording.
pub open spec fn cost_behind(
    layout: Layout,
    i: int,
    options: LongFormOptions,
    acoustics: Acoustics,
) -> int {
    let boundary = (acoustics.originals)(
        layout.anchors,
        layout.slices[i].content_end_sample as int,
    );
    let half = boundary_window(options) / 2;
    let start = min(max(0, boundary - half), acoustics.sample_count);
    let end = min(boundary + half, acoustics.sample_count);
    if end <= start {
        0
    } else {
        (acoustics.boundary)(start, end, boundary_scale(options))
    }
}

/// Cost of the boundaries behind the first `count` slices.
pub open spec fn boundary_costs(
    layout: Layout,
    count: int,
    options: LongFormOptions,
    acoustics: Acoustics,
) -> int
    decreases count,
{
    if count <= 0 {
        0
    } else {
        boundary_costs(layout, count - 1, options, acoustics) + cost_behind(
            layout,
            count - 1,
            options,
            acoustics,
        )
    }
}

/// Charge for the loudness at a plan's inner boundaries.
pub open spec fn boundary_charge(
    layout: Layout,
    options: LongFormOptions,
    acoustics: Acoustics,
) -> usize {
    if layout.slices.len() <= 1 || acoustics.sample_count == 0 {
        0
    } else {
        capped(boundary_costs(layout, layout.slices.len() - 1, options, acoustics))
    }
}

/// Cost of eliding `[from, to)`, as far as the recording goes.
pub open spec fn elided_cost(
    kept: Seq<LongFormVadSlice>,
    from: int,
    to: int,
    acoustics: Acoustics,
) -> int {
    let start = min(from, acoustics.sample_count);
    let end = min(to, acoustics.sample_count);
    if end <= start {
        0
    } else {
        (acoustics.elision)(kept, start, end)
    }
}

/// Cost of eliding the gaps between the first `count` spans.
pub open spec fn gap_costs(
    packed: Seq<LongFormVadSlice>,
    count: int,
    kept: Seq<LongFormVadSlice>,
    acoustics: Acoustics,
) -> int
    decreases count,
{
    if count <= 1 {
        0
    } else {
        gap_costs(packed, count - 1, kept, acoustics) + elided_cost(
            kept,
            packed[count - 2].end_sample as int,
            packed[count - 1].start_sample as int,
            acoustics,
        )
    }
}

/// Charge for what a packed plan elides: before the first kept span, between two, and
/// after the last.
pub open spec fn elision_charge(layout: Layout, acoustics: Acoustics) -> usize {
    match layout.packed {
        None => 0,
        Some(plan) => if acoustics.sample_count == 0 || plan.spans.len() == 0 {
            0
        } else {
            let kept = layout.kept(acoustics.sample_count);
            capped(
                elided_cost(kept, 0, plan.spans[0].start_sample as int, acoustics) + elided_cost(
                    kept,
                    plan.spans.last().end_sample as int,
                    acoustics.sample_count,
                    acoustics,
                ) + gap_costs(plan.spans, plan.spans.len() as int, kept, acoustics),
            )
        },
    }
}

/// Window measured at each edge of a gap.
pub open spec fn edge_window(options: LongFormOptions) -> int {
    max(options.edge_window_samples as int, 1)
}

/// Scale of a gap's edge cost.
pub open spec fn edge_scale(options: LongFormOptions) -> int {
    max(max(options.chunk_samples as int, 1) / 16, edge_window(options))
}

/// The ranges measured at the edges of the gap `[start, end)`.
pub open spec fn gap_edges(start: int, end: int, options: LongFormOptions) -> GapEdges {
    let length = max(min(edge_window(options), (end - start) / 2), 1);
    GapEdges {
        left: LongFormVadSlice {
            start_sample: start as usize,
            end_sample: (start + length) as usize,
        },
        right: LongFormVadSlice { start_sample: (end - length) as usize, end_sample: end as usize },
    }
}

/// Cost of cutting at the edges of a gap.
pub open spec fn edge_cost_of(
    kept: Seq<LongFormVadSlice>,
    from: int,
    to: int,
    options: LongFormOptions,
    acoustics: Acoustics,
) -> int {
    let start = min(from, acoustics.sample_count);
    let end = min(to, acoustics.sample_count);
    if end <= start {
        0
    } else {
        (acoustics.edges)(kept, gap_edges(start, end, options), edge_scale(options))
    }
}

/// Edge cost of the gaps between the first `count` spans.
pub open spec fn edge_costs(
    packed: Seq<LongFormVadSlice>,
    count: int,
    kept: Seq<LongFormVadSlice>,
    options: LongFormOptions,
    acoustics: Acoustics,
) -> int
    decreases count,
{
    if count <= 1 {
        0
    } else {
        edge_costs(packed, count - 1, kept, options, acoustics) + edge_cost_of(
            kept,
            packed[count - 2].end_sample as int,
            packed[count - 1].start_sample as int,
            options,
            acoustics,
        )
    }
}

/// Charge for cutting kept spans where the audio on the other side is still live.
pub open spec fn gap_edge_charge(
    layout: Layout,
    options: LongFormOptions,
    acoustics: Acoustics,
) -> usize {
    match layout.packed {
        None => 0,
        Some(plan) => if plan.spans.len() < 2 || acoustics.sample_count == 0 {
            0
        } else {
            capped(
                edge_costs(
                    plan.spans,
                    plan.spans.len() as int,
                    layout.kept(acoustics.sample_count),
                    options,
                    acoustics,
                ),
            )
        },
    }
}

// ---------------------------------------------------------------------------
// A candidate
// ---------------------------------------------------------------------------

/// Charge for every slice after the first.
pub open spec fn extra_chunk_charge(layout: Layout, options: LongFormOptions) -> int {
    max(0, layout.slices.len() - 1) * max(
        max(options.chunk_samples as int, 1) / 12,
        max(options.one_second_samples as int, 1),
    )
}

/// Charge for the planner that a layout comes from.
pub open spec fn bias_of(kind: AudioSliceKind, options: LongFormOptions) -> int {
    let chunk = max(options.chunk_samples as int, 1);
    match kind {
        AudioSliceKind::Energy => 0,
        AudioSliceKind::Vad => max(chunk / 64, 1),
        AudioSliceKind::Fixed => max(chunk / 48, 1),
        AudioSliceKind::Full => 0,
    }
}

/// A layout with its costs. The score is their sum, as far as a `u128` can count.
pub open spec fn scored(
    kind: AudioSliceKind,
    layout: Layout,
    options: LongFormOptions,
    ceiling: int,
    acoustics: Acoustics,
) -> Candidate {
    let processed = processed_estimate(layout, acoustics.sample_count, options, ceiling);
    let short = capped(
        shortage(layout.slices, layout.slices.len() as int, desired_length(options)),
    );
    let boundary = boundary_charge(layout, options, acoustics);
    let elision = elision_charge(layout, acoustics);
    let edges = gap_edge_charge(layout, options, acoustics);
    let seam = seam_charge(layout, options);
    let extra = extra_chunk_charge(layout, options);
    let bias = bias_of(kind, options);
    Candidate {
        kind,
        score: min(
            processed + short + boundary + elision + edges + seam + extra + bias,
            u128::MAX as int,
        ) as u128,
        processed_samples: processed,
        short_slice_penalty: short,
        boundary_penalty: boundary,
        elision_penalty: elision,
        gap_edge_penalty: edges,
        seam_penalty: seam,
        extra_chunk_penalty: extra as u128,
        stability_bias: bias as u128,
        contextual_credit: 0,
        contextual_penalty: 0,
        layout,
    }
}

fn stability_bias_of(kind: AudioSliceKind, options: &LongFormOptions) -> (bias: usize)
    ensures
        bias == bias_of(kind, *options),
{
    let chunk_samples: usize = larger(options.chunk_samples, 1);
    match kind {
        AudioSliceKind::Energy => 0,
        AudioSliceKind::Vad => larger(chunk_samples / 64, 1),
        AudioSliceKind::Fixed => larger(chunk_samples / 48, 1),
        AudioSliceKind::Full => 0,
    }
}

fn extra_chunk_penalty_of(chunk_count: usize, options: &LongFormOptions) -> (penalty: u128)
    ensures
        penalty == max(0, chunk_count - 1) * max(
            max(options.chunk_samples as int, 1) / 12,
            max(options.one_second_samples as int, 1),
        ),
{
    let chunk_samples: usize = larger(options.chunk_samples, 1);
    let per_chunk_overhead: usize = larger(
        chunk_samples / 12,
        larger(options.one_second_samples, 1),
    );
    let extra: usize = chunk_count.saturating_sub(1);
    assert(0 <= extra as int * per_chunk_overhead as int <= 0xffff_ffff_ffff_ffff
        * 0xffff_ffff_ffff_ffff) by (nonlinear_arith)
        requires
            0 <= extra <= 0xffff_ffff_ffff_ffff,
            0 <= per_chunk_overhead <= 0xffff_ffff_ffff_ffff,
    ;
    extra as u128 * per_chunk_overhead as u128
}

impl<
    L: Fn(usize, usize) -> u32,
    O: Fn(&TimelineMap, usize) -> usize,
    B: Fn(usize, usize, usize) -> usize,
    E: Fn(&Vec<LongFormVadSlice>, usize, usize) -> usize,
    G: Fn(&Vec<LongFormVadSlice>, GapEdges, usize) -> usize,
    A: Fn(&Vec<LongFormVadSlice>, usize, usize) -> Option<AudibleWindow>,
    D: Fn(&Vec<LongFormVadSlice>, &Vec<LongFormVadSlice>, AudibleWindow) -> String,
> RecordingMeasures<L, O, B, E, G, A, D> {
    /// Charges a plan for the loudness of the recording at its inner boundaries.
    pub fn estimate_boundary_penalty(
        &self,
        layout: &LongFormPlanningLayout,
        options: &LongFormOptions,
    ) -> (penalty: usize)
        requires
            self.answers(),
        ensures
            penalty == boundary_charge(layout@, *options, self.acoustics()),
    {
        let sample_count: usize = self.sample_count;
        if layout.slices.len() <= 1 || sample_count == 0 {
            return 0;
        }
        let chunk_samples: usize = larger(options.chunk_samples, 1);
        let window_samples: usize = larger(options.boundary_window_samples, 1);
        let per_boundary_scale: usize = larger(chunk_samples / 8, window_samples);
        let half_window: usize = window_samples / 2;
        let inner: usize = layout.slices.len() - 1;
        let mut penalty: usize = 0;
        let mut at: usize = 0;
        while at < inner
            invariant
                at <= inner < layout.slices.len(),
                self.answers(),
                sample_count == self.sample_count,
                half_window == boundary_window(*options) / 2,
                per_boundary_scale == boundary_scale(*options),
                boundary_costs(layout@, at as int, *options, self.acoustics()) >= 0,
                penalty == capped(
                    boundary_costs(layout@, at as int, *options, self.acoustics()),
                ),
            decreases inner - at,
        {
            let boundary_sample: usize = original_of(
                &self.mapper,
                &layout.timeline,
                layout.slices[at].content_end_sample,
            );
            let start: usize = smaller(boundary_sample.saturating_sub(half_window), sample_count);
            let end: usize = smaller(boundary_sample.saturating_add(half_window), sample_count);
            let cost: usize = if end <= start {
                0
            } else {
                self.ask_boundary(start, end, per_boundary_scale)
            };
            assert(cost == cost_behind(layout@, at as int, *options, self.acoustics()));
            penalty = penalty.saturating_add(cost);
            at = at + 1;
        }
        penalty
    }

    fn cost_of_eliding(
        &self,
        kept: &Vec<LongFormVadSlice>,
        from: usize,
        to: usize,
    ) -> (cost: usize)
        requires
            self.answers(),
        ensures
            cost == elided_cost(kept@, from as int, to as int, self.acoustics()),
    {
        let start: usize = smaller(from, self.sample_count);
        let end: usize = smaller(to, self.sample_count);
        if end <= start {
            0
        } else {
            self.ask_elision(kept, start, end)
        }
    }

    /// Charges a plan for elided audio that reads as audible: a gap between two kept
    /// spans, and just so what lies before the first of them and after the last.
    pub fn estimate_elision_penalty(
        &self,
        layout: &LongFormPlanningLayout,
        kept: &Vec<LongFormVadSlice>,
    ) -> (penalty: usize)
        requires
            self.answers(),
            kept@ == layout@.kept(self.sample_count as int),
        ensures
            penalty == elision_charge(layout@, self.acoustics()),
    {
        if let Some(plan) = &layout.packed_audio_plan {
            let count: usize = plan.spans.len();
            if self.sample_count == 0 || count == 0 {
                return 0;
            }
            let head: usize = self.cost_of_eliding(kept, 0, plan.spans[0].start_sample);
            let tail: usize = self.cost_of_eliding(
                kept,
                plan.spans[count - 1].end_sample,
                self.sample_count,
            );
            let mut interior: usize = 0;
            let mut at: usize = 1;
            while at < count
                invariant
                    1 <= at <= count == plan.spans.len(),
                    self.answers(),
                    gap_costs(plan.spans@, at as int, kept@, self.acoustics()) >= 0,
                    interior == capped(
                        gap_costs(plan.spans@, at as int, kept@, self.acoustics()),
                    ),
                decreases count - at,
            {
                let cost: usize = self.cost_of_eliding(
                    kept,
                    plan.spans[at - 1].end_sample,
                    plan.spans[at].start_sample,
                );
                interior = interior.saturating_add(cost);
                at = at + 1;
            }
            return head.saturating_add(tail).saturating_add(interior);
        }
        0
    }

    fn cost_of_gap_edges(
        &self,
        kept: &Vec<LongFormVadSlice>,
        from: usize,
        to: usize,
        options: &LongFormOptions,
    ) -> (cost: usize)
        requires
            self.answers(),
        ensures
            cost == edge_cost_of(kept@, from as int, to as int, *options, self.acoustics()),
    {
        let start: usize = smaller(from, self.sample_count);
        let end: usize = smaller(to, self.sample_count);
        if end <= start {
            return 0;
        }
        let chunk_samples: usize = larger(options.chunk_samples, 1);
        let window: usize = larger(options.edge_window_samples, 1);
        let per_edge_scale: usize = larger(chunk_samples / 16, window);
        let edge_len: usize = larger(smaller(window, (end - start) / 2), 1);
        let edges = GapEdges {
            left: LongFormVadSlice { start_sample: start, end_sample: start + edge_len },
            right: LongFormVadSlice { start_sample: end - edge_len, end_sample: end },
        };
        assert(edges == gap_edges(start as int, end as int, *options));
        self.ask_edges(kept, edges, per_edge_scale)
    }

    /// Charges a plan for cutting a kept span where the audio on the other side of the
    /// seam is still live.
    pub fn estimate_gap_edge_penalty(
        &self,
        layout: &LongFormPlanningLayout,
        options: &LongFormOptions,
        kept: &Vec<LongFormVadSlice>,
    ) -> (penalty: usize)
        requires
            self.answers(),
            kept@ == layout@.kept(self.sample_count as int),
        ensures
            penalty == gap_edge_charge(layout@, *options, self.acoustics()),
    {
        if let Some(plan) = &layout.packed_audio_plan {
            let count: usize = plan.spans.len();
            if count < 2 || self.sample_count == 0 {
                return 0;
            }
            let mut penalty: usize = 0;
            let mut at: usize = 1;
            while at < count
                invariant
                    1 <= at <= count == plan.spans.len(),
                    self.answers(),
                    edge_costs(plan.spans@, at as int, kept@, *options, self.acoustics()) >= 0,
                    penalty == capped(
                        edge_costs(plan.spans@, at as int, kept@, *options, self.acoustics()),
                    ),
                decreases count - at,
            {
                let cost: usize = self.cost_of_gap_edges(
                    kept,
                    plan.spans[at - 1].end_sample,
                    plan.spans[at].start_sample,
                    options,
                );
                penalty = penalty.saturating_add(cost);
                at = at + 1;
            }
            return penalty;
        }
        0
    }

    /// Adds up what a layout costs.
    pub fn build_auto_plan_candidate(
        &self,
        kind: AudioSliceKind,
        layout: LongFormPlanningLayout,
        sample_rate_hz: u32,
        options: &LongFormOptions,
    ) -> (candidate: AutoPlanCandidate)
        requires
            self.answers(),
            options.has_ceiling(sample_rate_hz),
        ensures
            candidate@ == scored(
                kind,
                layout@,
                *options,
                options.ceiling(sample_rate_hz),
                self.acoustics(),
            ),
    {
        let processed_samples: usize = estimate_layout_processed_samples(
            &layout,
            self.sample_count,
            sample_rate_hz,
            options,
        );
        let short_slice_penalty: usize = estimate_short_slice_penalty(&layout.slices, options);
        let boundary_penalty: usize = self.estimate_boundary_penalty(&layout, options);
        let (kept, _dropped) = candidate_kept_and_dropped_ranges(&layout, self.sample_count);
        let elision_penalty: usize = self.estimate_elision_penalty(&layout, &kept);
        let gap_edge_penalty: usize = self.estimate_gap_edge_penalty(&layout, options, &kept);
        let seam_penalty: usize = estimate_seam_penalty(&layout, options);
        let extra_chunk_penalty: u128 = extra_chunk_penalty_of(layout.slices.len(), options);
        let stability_bias: usize = stability_bias_of(kind, options);
        let of_samples: u128 = processed_samples as u128 + short_slice_penalty as u128
            + boundary_penalty as u128 + elision_penalty as u128 + gap_edge_penalty as u128
            + seam_penalty as u128 + stability_bias as u128;
        let score: u128 = of_samples.saturating_add(extra_chunk_penalty);
        AutoPlanCandidate {
            kind,
            score,
            processed_samples,
            short_slice_penalty,
            boundary_penalty,
            elision_penalty,
            gap_edge_penalty,
            seam_penalty,
            extra_chunk_penalty,
            stability_bias: stability_bias as u128,
            contextual_credit: 0,
            contextual_penalty: 0,
            layout,
        }
    }
}

/// What a candidate scores is the sum of what it feeds and of all that it is charged, as far
/// as can be counted, and no credit or penalty is on it yet. A plan is charged for every
/// slice but its first, with a twelfth of a chunk but a second at least; and voice activity
/// is charged a 64th of a chunk, fixed windows a 48th, energy and the whole recording
/// nothing.
pub proof fn law_score_is_the_sum(
    kind: AudioSliceKind,
    layout: Layout,
    options: LongFormOptions,
    ceiling: int,
    acoustics: Acoustics,
)
    requires
        layout.slices.len() <= usize::MAX,
    ensures
        ({
            let c = scored(kind, layout, options, ceiling, acoustics);
            let sum = c.processed_samples + c.short_slice_penalty + c.boundary_penalty
                + c.elision_penalty + c.gap_edge_penalty + c.seam_penalty + c.extra_chunk_penalty
                + c.stability_bias;
            let chunk = options.chunk_samples as int;
            let second = if options.one_second_samples >= 1 {
                options.one_second_samples as int
            } else {
                1
            };
            &&& sum <= u128::MAX ==> c.score == sum
            &&& sum > u128::MAX ==> c.score == u128::MAX
            &&& c.kind == kind
            &&& c.layout == layout
            &&& c.contextual_credit == 0
            &&& c.contextual_penalty == 0
            &&& c.processed_samples == processed_estimate(
                layout,
                acoustics.sample_count,
                options,
                ceiling,
            )
            &&& c.short_slice_penalty == capped(
                shortage(layout.slices, layout.slices.len() as int, desired_length(options)),
            )
            &&& c.boundary_penalty == boundary_charge(layout, options, acoustics)
            &&& c.elision_penalty == elision_charge(layout, acoustics)
            &&& c.gap_edge_penalty == gap_edge_charge(layout, options, acoustics)
            &&& c.seam_penalty == seam_charge(layout, options)
            &&& layout.slices.len() <= 1 ==> c.extra_chunk_penalty == 0
            &&& layout.slices.len() > 1 ==> c.extra_chunk_penalty == (layout.slices.len() - 1)
                * if chunk / 12 >= second {
                chunk / 12
            } else {
                second
            }
            &&& kind == AudioSliceKind::Energy || kind == AudioSliceKind::Full ==> c.stability_bias
                == 0
            &&& kind == AudioSliceKind::Vad && chunk >= 64 ==> c.stability_bias == chunk / 64
            &&& kind == AudioSliceKind::Vad && chunk < 64 ==> c.stability_bias == 1
            &&& kind == AudioSliceKind::Fixed && chunk >= 48 ==> c.stability_bias == chunk / 48
            &&& kind == AudioSliceKind::Fixed && chunk < 48 ==> c.stability_bias == 1
        }),
{
    let count = max(0, layout.slices.len() - 1);
    let each = max(
        max(options.chunk_samples as int, 1) / 12,
        max(options.one_second_samples as int, 1),
    );
    assert(0 <= count * each <= 0xffff_ffff_ffff_ffff * 0xffff_ffff_ffff_ffff) by (nonlinear_arith)
        requires
            0 <= count <= 0xffff_ffff_ffff_ffff,
            0 <= each <= 0xffff_ffff_ffff_ffff,
    ;
    if count == 0 {
        assert(count * each == 0) by (nonlinear_arith)
            requires
                count == 0,
        ;
    }
}

/// What is fed: on the recording's own timeline the padded windows of all slices, on a packed
/// one the windows, but the whole packed timeline at least, unless it is known how much packed
/// audio there is; each slice adds its own window.
pub proof fn law_fed_samples_add_up(
    layout: Layout,
    total: int,
    options: LongFormOptions,
    ceiling: int,
    planned: Seq<AudioSlice>,
    count: int,
)
    requires
        0 <= count < planned.len(),
        planned[count].start_sample <= planned[count].end_sample,
    ensures
        layout.processed_audio_samples matches Some(samples) ==> processed_estimate(
            layout,
            total,
            options,
            ceiling,
        ) == samples,
        fed_samples(planned, 0) == 0,
        fed_samples(planned, count + 1) - fed_samples(planned, count) == planned[count].end_sample
            - planned[count].start_sample,
        ({
            let padded = slices::padded_slices(
                layout.slices,
                total,
                options.padding_samples as int,
                ceiling,
            );
            let fed = fed_samples(padded, padded.len() as int);
            !layout.is_packed() && fed <= usize::MAX ==> processed_estimate(
                layout,
                total,
                options,
                ceiling,
            ) == fed
        }),
        ({
            let fed = fed_samples(layout.slices, layout.slices.len() as int);
            layout.packed matches Some(plan) ==> layout.processed_audio_samples is None && fed
                <= usize::MAX ==> processed_estimate(
                layout,
                total,
                options,
                ceiling,
            ) == if fed >= plan.processed_samples {
                fed
            } else {
                plan.processed_samples as int
            }
        }),
{
    let padded = slices::padded_slices(
        layout.slices,
        total,
        options.padding_samples as int,
        ceiling,
    );
    lemma_fed_samples_grow(padded, padded.len() as int);
    lemma_fed_samples_grow(layout.slices, layout.slices.len() as int);
}

/// Each slice shorter than half a chunk or twice the least chunk, whichever is more, adds what
/// it lacks of it; a longer one adds nothing.
pub proof fn law_short_slices_are_charged_what_they_lack(
    planned: Seq<AudioSlice>,
    count: int,
    options: LongFormOptions,
)
    requires
        0 <= count < planned.len(),
        2 * options.min_chunk_samples <= usize::MAX,
        planned[count].content_start_sample <= planned[count].content_end_sample,
    ensures
        ({
            let desired = desired_length(options);
            let length = planned[count].content_end_sample - planned[count].content_start_sample;
            let added = shortage(planned, count + 1, desired) - shortage(planned, count, desired);
            let half = options.chunk_samples as int / 2;
            let twice = 2 * options.min_chunk_samples;
            &&& desired == if half >= twice {
                half
            } else {
                twice
            }
            &&& shortage(planned, 0, desired) == 0
            &&& length >= desired ==> added == 0
            &&& length < desired ==> added == desired - length
        }),
{
}

/// Only packed plans have seams to pay for: one for every span beyond the number of slices,
/// each at the most of a 48th of a chunk, its own length, and the least charge.
pub proof fn law_seams_inside_slices_are_charged(layout: Layout, options: LongFormOptions)
    ensures
        layout.packed is None ==> seam_charge(layout, options) == 0,
        layout.packed matches Some(plan) ==> {
            let inside = plan.spans.len() - layout.slices.len();
            let a = max(options.chunk_samples as int, 1) / 48;
            let b = plan.seam_samples as int;
            let c = options.seam_floor_samples as int;
            &&& inside <= 0 ==> seam_charge(layout, options) == 0
            &&& inside > 0 && a >= b && a >= c && inside * a <= usize::MAX ==> seam_charge(
                layout,
                options,
            ) == inside * a
            &&& inside > 0 && b >= a && b >= c && inside * b <= usize::MAX ==> seam_charge(
                layout,
                options,
            ) == inside * b
            &&& inside > 0 && c >= a && c >= b && inside * c <= usize::MAX ==> seam_charge(
                layout,
                options,
            ) == inside * c
        },
{
    if let Some(plan) = layout.packed {
        let inside = plan.spans.len() - layout.slices.len();
        let each = max(
            max(max(options.chunk_samples as int, 1) / 48, plan.seam_samples as int),
            options.seam_floor_samples as int,
        );
        if inside <= 0 {
            assert(0 * each == 0) by (nonlinear_arith);
        } else {
            assert(inside * each >= 0) by (nonlinear_arith)
                requires
                    inside >= 0,
                    each >= 0,
            ;
        }
    }
}

/// The boundary behind every slice but the last is charged what the recording costs in a
/// window round it, half of it on each side, at the scale of an eighth of a chunk or of the
/// window, whichever is more. A plan of one slice has none.
pub proof fn law_inner_boundaries_are_charged(
    layout: Layout,
    i: int,
    options: LongFormOptions,
    acoustics: Acoustics,
)
    requires
        0 <= i < layout.slices.len() - 1,
        0 < acoustics.sample_count,
        boundary_costs(layout, layout.slices.len() - 1, options, acoustics) <= usize::MAX,
        boundary_costs(layout, layout.slices.len() - 1, options, acoustics) >= 0,
    ensures
        ({
            let at = (acoustics.originals)(
                layout.anchors,
                layout.slices[i].content_end_sample as int,
            );
            let window = if options.boundary_window_samples >= 1 {
                options.boundary_window_samples as int
            } else {
                1
            };
            let half = options.boundary_window_samples as int / 2;
            let from = if at >= half {
                at - half
            } else {
                0
            };
            let to = if at + half <= acoustics.sample_count {
                at + half
            } else {
                acoustics.sample_count
            };
            let scale = if options.chunk_samples as int / 8 >= window {
                options.chunk_samples as int / 8
            } else {
                window
            };
            let added = boundary_costs(layout, i + 1, options, acoustics) - boundary_costs(
                layout,
                i,
                options,
                acoustics,
            );
            &&& boundary_costs(layout, 0, options, acoustics) == 0
            &&& from < to ==> added == (acoustics.boundary)(from, to, scale)
            &&& from >= to ==> added == 0
            &&& boundary_charge(layout, options, acoustics) == boundary_costs(
                layout,
                layout.slices.len() - 1,
                options,
                acoustics,
            )
        }),
{
}

/// A plan of one slice has no inner boundary to pay for.
pub proof fn law_one_slice_has_no_boundary(
    layout: Layout,
    options: LongFormOptions,
    acoustics: Acoustics,
)
    requires
        layout.slices.len() <= 1,
    ensures
        boundary_charge(layout, options, acoustics) == 0,
{
}

/// What a packed plan elides is charged: the stretch before its first span, that after its
/// last, and every gap between two. A plan on the recording's own timeline elides nothing.
pub proof fn law_elided_stretches_are_charged(layout: Layout, i: int, acoustics: Acoustics)
    ensures
        layout.packed is None ==> elision_charge(layout, acoustics) == 0,
        layout.packed matches Some(plan) ==> {
            let kept = layout.kept(acoustics.sample_count);
            let count = plan.spans.len() as int;
            let gaps = gap_costs(plan.spans, count, kept, acoustics);
            let head = if 0 < plan.spans[0].start_sample {
                (acoustics.elision)(kept, 0, plan.spans[0].start_sample as int)
            } else {
                0
            };
            let tail = if plan.spans[count - 1].end_sample < acoustics.sample_count {
                (acoustics.elision)(
                    kept,
                    plan.spans[count - 1].end_sample as int,
                    acoustics.sample_count,
                )
            } else {
                0
            };
            &&& gap_costs(plan.spans, 1, kept, acoustics) == 0
            &&& 1 <= i < count && plan.spans[i - 1].end_sample < plan.spans[i].start_sample
                <= acoustics.sample_count ==> gap_costs(plan.spans, i + 1, kept, acoustics)
                - gap_costs(plan.spans, i, kept, acoustics) == (acoustics.elision)(
                kept,
                plan.spans[i - 1].end_sample as int,
                plan.spans[i].start_sample as int,
            )
            &&& 1 <= i < count && plan.spans[i - 1].end_sample >= plan.spans[i].start_sample
                ==> gap_costs(plan.spans, i + 1, kept, acoustics) == gap_costs(
                plan.spans,
                i,
                kept,
                acoustics,
            )
            &&& count == 0 || acoustics.sample_count == 0 ==> elision_charge(layout, acoustics)
                == 0
            &&& 0 < count && 0 < acoustics.sample_count && plan.spans[0].start_sample
                <= acoustics.sample_count && 0 <= head + tail + gaps <= usize::MAX
                ==> elision_charge(layout, acoustics) == head + tail + gaps
        },
{
}

/// Every gap between two spans of a packed plan is charged at its edges: a window on each
/// side of it, no more than half of it but a sample at least, at the scale of a sixteenth of a
/// chunk or of the window, whichever is more.
pub proof fn law_gap_edges_are_charged(
    layout: Layout,
    i: int,
    options: LongFormOptions,
    acoustics: Acoustics,
    left: LongFormVadSlice,
    right: LongFormVadSlice,
    length: int,
)
    requires
        layout.packed is Some,
        1 <= i < layout.packed->Some_0.spans.len(),
        0 < acoustics.sample_count,
        ({
            let spans = layout.packed->Some_0.spans;
            let gap = spans[i].start_sample - spans[i - 1].end_sample;
            let window = if options.edge_window_samples >= 1 {
                options.edge_window_samples as int
            } else {
                1
            };
            &&& 1 <= gap
            &&& spans[i].start_sample <= acoustics.sample_count
            &&& gap >= 2 * window ==> length == window
            &&& 1 < gap < 2 * window ==> length == gap / 2
            &&& gap == 1 ==> length == 1
            &&& left.start_sample == spans[i - 1].end_sample
            &&& left.end_sample == left.start_sample + length
            &&& right.end_sample == spans[i].start_sample
            &&& right.start_sample == right.end_sample - length
        }),
    ensures
        ({
            let spans = layout.packed->Some_0.spans;
            let kept = layout.kept(acoustics.sample_count);
            let total = edge_costs(spans, spans.len() as int, kept, options, acoustics);
            let window = if options.edge_window_samples >= 1 {
                options.edge_window_samples as int
            } else {
                1
            };
            let scale = if options.chunk_samples as int / 16 >= window {
                options.chunk_samples as int / 16
            } else {
                window
            };
            &&& edge_costs(spans, 1, kept, options, acoustics) == 0
            &&& edge_costs(spans, i + 1, kept, options, acoustics) - edge_costs(
                spans,
                i,
                kept,
                options,
                acoustics,
            ) == (acoustics.edges)(kept, GapEdges { left, right }, scale)
            &&& 0 <= total <= usize::MAX ==> gap_edge_charge(layout, options, acoustics) == total
        }),
{
    let spans = layout.packed->Some_0.spans;
    let edges = gap_edges(
        spans[i - 1].end_sample as int,
        spans[i].start_sample as int,
        options,
    );
    assert(edges.left == left);
    assert(edges.right == right);
    assert(edges == (GapEdges { left, right }));
}

/// A plan on the recording's own timeline has no gap to pay for, and neither has a packed one
/// with a single span.
pub proof fn law_no_gap_no_edges(layout: Layout, options: LongFormOptions, acoustics: Acoustics)
    requires
        layout.packed matches Some(plan) ==> plan.spans.len() <= 1,
    ensures
        gap_edge_charge(layout, options, acoustics) == 0,
{
}

/// A count stays as it is as long as it fits the machine, and stops there.
pub proof fn law_counts_stop_at_the_machine(value: int)
    requires
        0 <= value,
    ensures
        value <= usize::MAX ==> capped(value) == value,
        value > usize::MAX ==> capped(value) == usize::MAX,
{
}

} // verus!
