//! Ranges of samples: which of them hold speech, which are kept, which are dropped.

use vstd::math::*;
use vstd::prelude::*;

use crate::longform::slices::{larger, smaller, LongFormVadSlice};
use crate::longform::sorting;
use crate::longform::sorting::sort_stably;

verus! {

impl LongFormVadSlice {
    /// Whether the range holds a sample.
    pub open spec fn nonempty(self) -> bool {
        self.start_sample < self.end_sample
    }

    /// Number of samples in the range.
    pub open spec fn length(self) -> int {
        max(0, self.end_sample - self.start_sample)
    }

    /// Whether sample `at` lies in the range.
    pub open spec fn holds(self, at: int) -> bool {
        self.start_sample <= at < self.end_sample
    }

    /// The part of the range inside a recording.
    pub open spec fn clipped(self, total: int) -> LongFormVadSlice {
        LongFormVadSlice {
            start_sample: min(self.start_sample as int, total) as usize,
            end_sample: min(self.end_sample as int, total) as usize,
        }
    }

    /// The part of the range inside a recording.
    pub(crate) fn clip(self, total_samples: usize) -> (range: LongFormVadSlice)
        ensures
            range == self.clipped(total_samples as int),
    {
        LongFormVadSlice {
            start_sample: smaller(self.start_sample, total_samples),
            end_sample: smaller(self.end_sample, total_samples),
        }
    }
}

/// Whether sample `at` lies in one of the ranges.
pub open spec fn some_holds(ranges: Seq<LongFormVadSlice>, at: int) -> bool {
    exists|i: int| 0 <= i < ranges.len() && (#[trigger] ranges[i]).holds(at)
}

/// Order by first sample.
pub open spec fn starts_before() -> spec_fn(LongFormVadSlice, LongFormVadSlice) -> bool {
    |a: LongFormVadSlice, b: LongFormVadSlice| a.start_sample < b.start_sample
}

/// Whether the ranges come in the order of their first samples.
pub open spec fn starts_ascend(ranges: Seq<LongFormVadSlice>) -> bool {
    forall|i: int, j: int|
        0 <= i < j < ranges.len() ==> (#[trigger] ranges[i]).start_sample <= (
        #[trigger] ranges[j]).start_sample
}

/// Whether every range holds a sample and lies inside the recording.
pub open spec fn all_inside(ranges: Seq<LongFormVadSlice>, total: int) -> bool {
    forall|i: int|
        0 <= i < ranges.len() ==> (#[trigger] ranges[i]).nonempty() && ranges[i].end_sample <= total
}

/// Whether the ranges come one after another, with at least one sample between two.
pub open spec fn separated(ranges: Seq<LongFormVadSlice>) -> bool {
    forall|i: int, j: int|
        0 <= i < j < ranges.len() ==> (#[trigger] ranges[i]).end_sample < (
        #[trigger] ranges[j]).start_sample
}

pub(crate) fn sort_by_start(input: Vec<LongFormVadSlice>) -> (sorted: Vec<LongFormVadSlice>)
    ensures
        sorted@ == sorting::stably_sorted(input@, starts_before()),
{
    let comes_before = |a: &LongFormVadSlice, b: &LongFormVadSlice| -> (r: bool)
        ensures
            r == (a.start_sample < b.start_sample),
        { a.start_sample < b.start_sample };
    sort_stably(input, &comes_before, Ghost(starts_before()))
}

/// Sorting by first sample orders the ranges and keeps what they hold.
proof fn lemma_sorted_by_start(ranges: Seq<LongFormVadSlice>)
    ensures
        sorting::stably_sorted(ranges, starts_before()).len() == ranges.len(),
        starts_ascend(sorting::stably_sorted(ranges, starts_before())),
        forall|x: LongFormVadSlice|
            ranges.contains(x) <==> sorting::stably_sorted(ranges, starts_before()).contains(x),
        forall|at: int|
            some_holds(ranges, at) <==> #[trigger] some_holds(
                sorting::stably_sorted(ranges, starts_before()),
                at,
            ),
{
    broadcast use vstd::seq_lib::group_to_multiset_ensures;

    let sorted = sorting::stably_sorted(ranges, starts_before());
    sorting::law_sorting_orders_the_same_items(ranges, starts_before());
    assert forall|i: int, j: int| 0 <= i < j < sorted.len() implies (
    #[trigger] sorted[i]).start_sample <= (#[trigger] sorted[j]).start_sample by {
        assert(!starts_before()(sorted[j], sorted[i]));
    }
    assert forall|x: LongFormVadSlice| ranges.contains(x) <==> sorted.contains(x) by {
        assert(ranges.to_multiset().count(x) == sorted.to_multiset().count(x));
    }
    assert forall|at: int| some_holds(ranges, at) <==> #[trigger] some_holds(sorted, at) by {
        if some_holds(ranges, at) {
            let i = choose|i: int| 0 <= i < ranges.len() && (#[trigger] ranges[i]).holds(at);
            assert(ranges.contains(ranges[i]));
            assert(sorted.contains(ranges[i]));
        }
        if some_holds(sorted, at) {
            let i = choose|i: int| 0 <= i < sorted.len() && (#[trigger] sorted[i]).holds(at);
            assert(sorted.contains(sorted[i]));
            assert(ranges.contains(sorted[i]));
        }
    }
}

// ---------------------------------------------------------------------------
// Coalescing speech
// ---------------------------------------------------------------------------

/// How far apart and how long speech spans may be and still become one region.
#[derive(Debug, Clone, Copy, PartialEq, Eq, Structural)]
pub struct CoalesceLimits {
    /// Longest region that joining may make.
    pub target_chunk_samples: usize,
    /// A region shorter than this is joined across any pause.
    pub min_chunk_samples: usize,
    /// Longest pause that is bridged.
    pub gap_bridge_samples: usize,
}

/// Whether the next span of speech joins the region so far.
pub open spec fn joins(
    current: LongFormVadSlice,
    next: LongFormVadSlice,
    limits: CoalesceLimits,
) -> bool {
    &&& max(0, next.end_sample - current.start_sample) <= limits.target_chunk_samples
    &&& current.length() < limits.min_chunk_samples || max(
        0,
        next.start_sample - current.end_sample,
    ) <= limits.gap_bridge_samples
}

/// `out`, followed by the region where it holds a sample.
pub open spec fn closed_off(
    out: Seq<LongFormVadSlice>,
    current: LongFormVadSlice,
) -> Seq<LongFormVadSlice> {
    if current.nonempty() {
        out.push(current)
    } else {
        out
    }
}

/// The regions that the spans from the `at`-th on make, behind those in `out` and the
/// one being built.
pub open spec fn coalesced_from(
    sorted: Seq<LongFormVadSlice>,
    at: int,
    out: Seq<LongFormVadSlice>,
    current: LongFormVadSlice,
    limits: CoalesceLimits,
    total: int,
) -> Seq<LongFormVadSlice>
    decreases sorted.len() - at,
{
    if at >= sorted.len() {
        closed_off(out, current)
    } else {
        let next = sorted[at].clipped(total);
        if !next.nonempty() {
            coalesced_from(sorted, at + 1, out, current, limits, total)
        } else if joins(current, next, limits) {
            let grown = LongFormVadSlice {
                end_sample: max(current.end_sample as int, next.end_sample as int) as usize,
                ..current
            };
            coalesced_from(sorted, at + 1, out, grown, limits, total)
        } else {
            coalesced_from(sorted, at + 1, closed_off(out, current), next, limits, total)
        }
    }
}

/// The regions of speech that a detector's spans make.
pub open spec fn coalesced(
    input: Seq<LongFormVadSlice>,
    limits: CoalesceLimits,
    total: int,
) -> Seq<LongFormVadSlice> {
    if input.len() == 0 {
        input
    } else {
        let sorted = sorting::stably_sorted(input, starts_before());
        coalesced_from(sorted, 1, Seq::empty(), sorted[0].clipped(total), limits, total)
    }
}

/// Joins spans of speech into regions: spans whose pause is short, and a region that is
/// still too short to stand alone, as long as the region stays within the target.
pub fn coalesce_vad_slices(
    input: Vec<LongFormVadSlice>,
    limits: CoalesceLimits,
    total_samples: usize,
) -> (regions: Vec<LongFormVadSlice>)
    ensures
        regions@ == coalesced(input@, limits, total_samples as int),
{
    if input.len() == 0 {
        return input;
    }
    let ghost spans = input@;
    let sorted: Vec<LongFormVadSlice> = sort_by_start(input);
    proof {
        lemma_sorted_by_start(spans);
    }
    let mut out: Vec<LongFormVadSlice> = Vec::new();
    let mut current: LongFormVadSlice = sorted[0].clip(total_samples);
    let mut at: usize = 1;
    while at < sorted.len()
        invariant
            at <= sorted.len(),
            coalesced(spans, limits, total_samples as int) == coalesced_from(
                sorted@,
                at as int,
                out@,
                current,
                limits,
                total_samples as int,
            ),
        decreases sorted.len() - at,
    {
        let next: LongFormVadSlice = sorted[at].clip(total_samples);
        if next.end_sample > next.start_sample {
            let current_len: usize = current.end_sample.saturating_sub(current.start_sample);
            let merged_len: usize = next.end_sample.saturating_sub(current.start_sample);
            let gap: usize = next.start_sample.saturating_sub(current.end_sample);
            if merged_len <= limits.target_chunk_samples && (current_len < limits.min_chunk_samples
                || gap <= limits.gap_bridge_samples) {
                current.end_sample = larger(current.end_sample, next.end_sample);
            } else {
                if current.end_sample > current.start_sample {
                    out.push(current);
                }
                current = next;
            }
        }
        at = at + 1;
    }
    if current.end_sample > current.start_sample {
        out.push(current);
    }
    out
}

/// Coalescing loses no speech: every sample of the recording that some span holds lies
/// in a region. Every region holds a sample and lies inside the recording, and the
/// regions come in the order of their first samples.
pub proof fn law_coalescing_keeps_all_speech(
    input: Seq<LongFormVadSlice>,
    limits: CoalesceLimits,
    total: int,
)
    requires
        0 <= total <= usize::MAX,
    ensures
        all_inside(coalesced(input, limits, total), total),
        starts_ascend(coalesced(input, limits, total)),
        coalesced(input, limits, total).len() <= input.len(),
        forall|at: int|
            0 <= at < total && #[trigger] some_holds(input, at) ==> some_holds(
                coalesced(input, limits, total),
                at,
            ),
{
    if input.len() > 0 {
        let sorted = sorting::stably_sorted(input, starts_before());
        lemma_sorted_by_start(input);
        let first = sorted[0].clipped(total);
        lemma_coalesced_from(sorted, 1, Seq::empty(), first, limits, total);
        assert forall|at: int| 0 <= at < total && #[trigger] some_holds(input, at) implies some_holds(
            coalesced(input, limits, total),
            at,
        ) by {
            assert(some_holds(sorted, at));
            let i = choose|i: int| 0 <= i < sorted.len() && (#[trigger] sorted[i]).holds(at);
            if i == 0 {
                assert(first.holds(at));
            } else {
                assert(sorted.skip(1)[i - 1].holds(at));
            }
        }
    }
}

proof fn lemma_coalesced_from(
    sorted: Seq<LongFormVadSlice>,
    at: int,
    out: Seq<LongFormVadSlice>,
    current: LongFormVadSlice,
    limits: CoalesceLimits,
    total: int,
)
    requires
        0 <= total <= usize::MAX,
        1 <= at <= sorted.len(),
        starts_ascend(sorted),
        current.start_sample <= total,
        current.end_sample <= total,
        all_inside(out, total),
        starts_ascend(out),
        forall|i: int| 0 <= i < out.len() ==> (#[trigger] out[i]).start_sample <= current.start_sample,
        current.start_sample <= sorted[at - 1].start_sample,
        out.len() < at,
    ensures
        ({
            let regions = coalesced_from(sorted, at, out, current, limits, total);
            &&& all_inside(regions, total)
            &&& starts_ascend(regions)
            &&& regions.len() <= sorted.len()
            &&& forall|x: int|
                0 <= x < total && (some_holds(out, x) || current.holds(x) || some_holds(
                    sorted.skip(at),
                    x,
                )) ==> #[trigger] some_holds(regions, x)
        }),
    decreases sorted.len() - at,
{
    let regions = coalesced_from(sorted, at, out, current, limits, total);
    let shut = closed_off(out, current);
    assert forall|x: int| some_holds(out, x) || current.holds(x) implies #[trigger] some_holds(
        shut,
        x,
    ) by {
        if some_holds(out, x) {
            let i = choose|i: int| 0 <= i < out.len() && (#[trigger] out[i]).holds(x);
            assert(shut[i].holds(x));
        } else {
            assert(shut[out.len() as int].holds(x));
        }
    }
    if at < sorted.len() {
        let next = sorted[at].clipped(total);
        assert(sorted[at - 1].start_sample <= sorted[at].start_sample);
        assert forall|x: int| 0 <= x < total && some_holds(sorted.skip(at), x) implies next.holds(x)
            || #[trigger] some_holds(sorted.skip(at + 1), x) by {
            let rest = sorted.skip(at);
            let i = choose|i: int| 0 <= i < rest.len() && (#[trigger] rest[i]).holds(x);
            if i > 0 {
                assert(sorted.skip(at + 1)[i - 1].holds(x));
            }
        }
        if !next.nonempty() {
            lemma_coalesced_from(sorted, at + 1, out, current, limits, total);
        } else if joins(current, next, limits) {
            let grown = LongFormVadSlice {
                end_sample: max(current.end_sample as int, next.end_sample as int) as usize,
                ..current
            };
            lemma_coalesced_from(sorted, at + 1, out, grown, limits, total);
        } else {
            lemma_coalesced_from(sorted, at + 1, shut, next, limits, total);
        }
        assert forall|x: int|
            0 <= x < total && (some_holds(out, x) || current.holds(x) || some_holds(
                sorted.skip(at),
                x,
            )) implies #[trigger] some_holds(regions, x) by {
            assert(some_holds(sorted.skip(at), x) ==> next.holds(x) || some_holds(
                sorted.skip(at + 1),
                x,
            ));
            assert(some_holds(out, x) || current.holds(x) ==> some_holds(shut, x));
        }
    }
}

/// Whether no region could take in the one behind it.
pub open spec fn none_join(regions: Seq<LongFormVadSlice>, limits: CoalesceLimits) -> bool {
    forall|i: int, j: int|
        #![trigger regions[i], regions[j]]
        0 <= i && i + 1 == j && j < regions.len() ==> !joins(regions[i], regions[j], limits)
}

/// Coalescing goes as far as its limits and no further: no region is longer than the target
/// or the longest span, whichever is longer, and no two neighbours are left that could be
/// joined.
pub proof fn law_coalescing_keeps_its_limits(
    input: Seq<LongFormVadSlice>,
    limits: CoalesceLimits,
    total: int,
    longest: int,
)
    requires
        0 <= total <= usize::MAX,
        forall|i: int|
            0 <= i < input.len() ==> (#[trigger] input[i]).clipped(total).length() <= longest,
    ensures
        forall|i: int|
            0 <= i < coalesced(input, limits, total).len() ==> (#[trigger] coalesced(
                input,
                limits,
                total,
            )[i]).length() <= max(limits.target_chunk_samples as int, longest),
        none_join(coalesced(input, limits, total), limits),
{
    if input.len() > 0 {
        let sorted = sorting::stably_sorted(input, starts_before());
        lemma_sorted_by_start(input);
        assert forall|i: int| 0 <= i < sorted.len() implies (#[trigger] sorted[i]).clipped(
            total,
        ).length() <= longest by {
            assert(sorted.contains(sorted[i]));
            assert(input.contains(sorted[i]));
        }
        lemma_limits_kept(
            sorted,
            1,
            Seq::empty(),
            sorted[0].clipped(total),
            limits,
            total,
            longest,
        );
    }
}

proof fn lemma_limits_kept(
    sorted: Seq<LongFormVadSlice>,
    at: int,
    out: Seq<LongFormVadSlice>,
    current: LongFormVadSlice,
    limits: CoalesceLimits,
    total: int,
    longest: int,
)
    requires
        0 <= total <= usize::MAX,
        1 <= at <= sorted.len(),
        forall|i: int|
            0 <= i < sorted.len() ==> (#[trigger] sorted[i]).clipped(total).length() <= longest,
        current.length() <= max(limits.target_chunk_samples as int, longest),
        forall|i: int|
            0 <= i < out.len() ==> (#[trigger] out[i]).length() <= max(
                limits.target_chunk_samples as int,
                longest,
            ),
        none_join(out, limits),
        out.len() > 0 ==> current.nonempty() && !joins(out.last(), current, limits),
    ensures
        ({
            let regions = coalesced_from(sorted, at, out, current, limits, total);
            &&& forall|i: int|
                0 <= i < regions.len() ==> (#[trigger] regions[i]).length() <= max(
                    limits.target_chunk_samples as int,
                    longest,
                )
            &&& none_join(regions, limits)
        }),
    decreases sorted.len() - at,
{
    let shut = closed_off(out, current);
    assert(none_join(shut, limits)) by {
        assert forall|i: int, j: int|
            #![trigger shut[i], shut[j]]
            0 <= i && i + 1 == j && j < shut.len() implies !joins(shut[i], shut[j], limits) by {
            if j < out.len() {
                assert(shut[i] == out[i] && shut[j] == out[j]);
            } else {
                assert(shut[i] == out.last() && shut[j] == current);
            }
        }
    }
    if at < sorted.len() {
        let next = sorted[at].clipped(total);
        assert(sorted[at].clipped(total).length() <= longest);
        if !next.nonempty() {
            lemma_limits_kept(sorted, at + 1, out, current, limits, total, longest);
        } else if joins(current, next, limits) {
            let grown = LongFormVadSlice {
                end_sample: max(current.end_sample as int, next.end_sample as int) as usize,
                ..current
            };
            lemma_limits_kept(sorted, at + 1, out, grown, limits, total, longest);
        } else {
            lemma_limits_kept(sorted, at + 1, shut, next, limits, total, longest);
        }
    }
}

/// Whether two regions are kept apart for good reason, the second one being opened by a span
/// of `speech`: joined, that span would have made the region longer than the target, or the
/// region was long enough to stand alone and the pause behind it too long to be bridged.
pub open spec fn rightly_apart(
    region: LongFormVadSlice,
    next: LongFormVadSlice,
    speech: Seq<LongFormVadSlice>,
    limits: CoalesceLimits,
    total: int,
) -> bool {
    exists|i: int|
        0 <= i < speech.len() && (#[trigger] speech[i]).start_sample == next.start_sample && (min(
            speech[i].end_sample as int,
            total,
        ) - region.start_sample > limits.target_chunk_samples || (region.end_sample
            - region.start_sample >= limits.min_chunk_samples && next.start_sample
            - region.end_sample > limits.gap_bridge_samples))
}

/// Coalescing joins what it should: two neighbouring regions are apart only where the span
/// that opens the second would have made the first too long, or where the first could stand
/// alone and the pause behind it is longer than is bridged.
pub proof fn law_coalescing_joins_what_it_should(
    input: Seq<LongFormVadSlice>,
    limits: CoalesceLimits,
    total: int,
    i: int,
)
    requires
        0 <= total <= usize::MAX,
        0 <= i < coalesced(input, limits, total).len() - 1,
    ensures
        rightly_apart(
            coalesced(input, limits, total)[i],
            coalesced(input, limits, total)[i + 1],
            input,
            limits,
            total,
        ),
{
    let sorted = sorting::stably_sorted(input, starts_before());
    lemma_sorted_by_start(input);
    let regions = coalesced(input, limits, total);
    lemma_rightly_apart(sorted, 1, Seq::empty(), sorted[0].clipped(total), limits, total);
    assert(rightly_apart(regions[i], regions[i + 1], sorted, limits, total));
    let k = choose|k: int|
        0 <= k < sorted.len() && (#[trigger] sorted[k]).start_sample == regions[i + 1].start_sample
            && (min(sorted[k].end_sample as int, total) - regions[i].start_sample
            > limits.target_chunk_samples || (regions[i].end_sample - regions[i].start_sample
            >= limits.min_chunk_samples && regions[i + 1].start_sample - regions[i].end_sample
            > limits.gap_bridge_samples));
    assert(sorted.contains(sorted[k]));
    assert(input.contains(sorted[k]));
    let j = choose|j: int| 0 <= j < input.len() && input[j] == sorted[k];
    assert(input[j].start_sample == regions[i + 1].start_sample);
}

proof fn lemma_rightly_apart(
    sorted: Seq<LongFormVadSlice>,
    at: int,
    out: Seq<LongFormVadSlice>,
    current: LongFormVadSlice,
    limits: CoalesceLimits,
    total: int,
)
    requires
        0 <= total <= usize::MAX,
        1 <= at <= sorted.len(),
        starts_ascend(sorted),
        current.start_sample <= sorted[at - 1].start_sample,
        forall|i: int, j: int|
            #![trigger out[i], out[j]]
            0 <= i && i + 1 == j && j < out.len() ==> rightly_apart(
                out[i],
                out[j],
                sorted,
                limits,
                total,
            ),
        out.len() > 0 ==> current.nonempty() && rightly_apart(
            out.last(),
            current,
            sorted,
            limits,
            total,
        ),
    ensures
        ({
            let regions = coalesced_from(sorted, at, out, current, limits, total);
            forall|i: int, j: int|
                #![trigger regions[i], regions[j]]
                0 <= i && i + 1 == j && j < regions.len() ==> rightly_apart(
                    regions[i],
                    regions[j],
                    sorted,
                    limits,
                    total,
                )
        }),
    decreases sorted.len() - at,
{
    let shut = closed_off(out, current);
    assert forall|i: int, j: int|
        #![trigger shut[i], shut[j]]
        0 <= i && i + 1 == j && j < shut.len() implies rightly_apart(
        shut[i],
        shut[j],
        sorted,
        limits,
        total,
    ) by {
        if j < out.len() {
            assert(shut[i] == out[i] && shut[j] == out[j]);
        } else {
            assert(shut[i] == out.last() && shut[j] == current);
        }
    }
    if at < sorted.len() {
        let next = sorted[at].clipped(total);
        assert(sorted[at - 1].start_sample <= sorted[at].start_sample);
        if !next.nonempty() {
            lemma_rightly_apart(sorted, at + 1, out, current, limits, total);
            assert(coalesced_from(sorted, at, out, current, limits, total) == coalesced_from(
                sorted,
                at + 1,
                out,
                current,
                limits,
                total,
            ));
        } else if joins(current, next, limits) {
            let grown = LongFormVadSlice {
                end_sample: max(current.end_sample as int, next.end_sample as int) as usize,
                ..current
            };
            if out.len() > 0 {
                let k = choose|k: int|
                    0 <= k < sorted.len() && (#[trigger] sorted[k]).start_sample
                        == current.start_sample && (min(sorted[k].end_sample as int, total)
                        - out.last().start_sample > limits.target_chunk_samples || (
                    out.last().end_sample - out.last().start_sample >= limits.min_chunk_samples
                        && current.start_sample - out.last().end_sample
                        > limits.gap_bridge_samples));
                assert(sorted[k].start_sample == grown.start_sample);
            }
            lemma_rightly_apart(sorted, at + 1, out, grown, limits, total);
            assert(coalesced_from(sorted, at, out, current, limits, total) == coalesced_from(
                sorted,
                at + 1,
                out,
                grown,
                limits,
                total,
            ));
        } else {
            assert(sorted[at].start_sample == next.start_sample);
            if current.nonempty() {
                assert(rightly_apart(current, next, sorted, limits, total));
            } else if out.len() > 0 {
                assert(false);
            }
            lemma_rightly_apart(sorted, at + 1, shut, next, limits, total);
            assert(coalesced_from(sorted, at, out, current, limits, total) == coalesced_from(
                sorted,
                at + 1,
                shut,
                next,
                limits,
                total,
            ));
        }
    } else {
        assert(coalesced_from(sorted, at, out, current, limits, total) == shut);
    }
}

/// Coalescing joins nothing that it should not. Where no span is longer than the target, a
/// pause inside a region that is longer than is bridged begins while the region was still
/// too short to stand alone; and a region ends with speech.
pub proof fn law_coalescing_bridges_short_pauses_only(
    input: Seq<LongFormVadSlice>,
    limits: CoalesceLimits,
    total: int,
    r: int,
    from: int,
    to: int,
)
    requires
        0 <= total <= usize::MAX,
        forall|i: int|
            0 <= i < input.len() ==> (#[trigger] input[i]).end_sample - input[i].start_sample
                <= limits.target_chunk_samples,
        0 <= r < coalesced(input, limits, total).len(),
        coalesced(input, limits, total)[r].start_sample < from < to <= coalesced(
            input,
            limits,
            total,
        )[r].end_sample,
        some_holds(input, from - 1),
        forall|x: int| from <= x < to ==> !#[trigger] some_holds(input, x),
        to - from > limits.gap_bridge_samples,
    ensures
        from - coalesced(input, limits, total)[r].start_sample < limits.min_chunk_samples,
        some_holds(input, coalesced(input, limits, total)[r].end_sample - 1),
{
    let sorted = sorting::stably_sorted(input, starts_before());
    lemma_sorted_by_start(input);
    assert forall|i: int| 0 <= i < sorted.len() implies (#[trigger] sorted[i]).end_sample
        - sorted[i].start_sample <= limits.target_chunk_samples by {
        assert(sorted.contains(sorted[i]));
        assert(input.contains(sorted[i]));
    }
    let regions = coalesced(input, limits, total);
    let first = sorted[0].clipped(total);
    if first.nonempty() {
        assert(sorted[0].holds(first.end_sample - 1));
        assert(some_holds(sorted, first.end_sample - 1));
    }
    assert(some_holds(sorted, from - 1));
    assert forall|x: int| from <= x < to implies !#[trigger] some_holds(sorted, x) by {
        assert(!some_holds(input, x));
    }
    if first.start_sample < from && to <= first.end_sample {
        assert(sorted[0].holds(from));
        assert(some_holds(sorted, from));
    }
    lemma_bridged(sorted, 1, Seq::empty(), first, limits, total, from, to);
    assert(well_bridged(regions[r], sorted, limits, from, to));
}

/// Whether a region ends with speech, and holds the pause `[from, to)`, if at all, from where
/// it was still too short to stand alone.
spec fn well_bridged(
    region: LongFormVadSlice,
    speech: Seq<LongFormVadSlice>,
    limits: CoalesceLimits,
    from: int,
    to: int,
) -> bool {
    &&& region.nonempty() ==> some_holds(speech, region.end_sample - 1)
    &&& region.start_sample < from && to <= region.end_sample ==> from - region.start_sample
        < limits.min_chunk_samples
}

proof fn lemma_bridged(
    sorted: Seq<LongFormVadSlice>,
    at: int,
    out: Seq<LongFormVadSlice>,
    current: LongFormVadSlice,
    limits: CoalesceLimits,
    total: int,
    from: int,
    to: int,
)
    requires
        0 <= total <= usize::MAX,
        1 <= at <= sorted.len(),
        starts_ascend(sorted),
        forall|i: int|
            0 <= i < sorted.len() ==> (#[trigger] sorted[i]).end_sample - sorted[i].start_sample
                <= limits.target_chunk_samples,
        from < to,
        to - from > limits.gap_bridge_samples,
        some_holds(sorted, from - 1),
        forall|x: int| from <= x < to ==> !#[trigger] some_holds(sorted, x),
        current.start_sample <= total,
        current.end_sample <= total,
        current.start_sample <= sorted[at - 1].start_sample,
        current.length() <= limits.target_chunk_samples,
        !current.nonempty() ==> out.len() == 0,
        forall|i: int|
            0 <= i < at ==> min((#[trigger] sorted[i]).end_sample as int, total)
                <= current.end_sample || sorted[i].end_sample <= sorted[i].start_sample
                || sorted[i].start_sample >= total,
        forall|i: int|
            0 <= i < out.len() ==> well_bridged(#[trigger] out[i], sorted, limits, from, to),
        well_bridged(current, sorted, limits, from, to),
    ensures
        ({
            let regions = coalesced_from(sorted, at, out, current, limits, total);
            forall|i: int|
                0 <= i < regions.len() ==> well_bridged(
                    #[trigger] regions[i],
                    sorted,
                    limits,
                    from,
                    to,
                )
        }),
    decreases sorted.len() - at,
{
    let shut = closed_off(out, current);
    if at < sorted.len() {
        let next = sorted[at].clipped(total);
        assert(sorted[at - 1].start_sample <= sorted[at].start_sample);
        if !next.nonempty() {
            lemma_bridged(sorted, at + 1, out, current, limits, total, from, to);
            assert(coalesced_from(sorted, at, out, current, limits, total) == coalesced_from(
                sorted,
                at + 1,
                out,
                current,
                limits,
                total,
            ));
        } else if joins(current, next, limits) {
            let grown = LongFormVadSlice {
                end_sample: max(current.end_sample as int, next.end_sample as int) as usize,
                ..current
            };
            assert(sorted[at].holds(next.end_sample - 1));
            assert(some_holds(sorted, next.end_sample - 1));
            if grown.start_sample < from && to <= grown.end_sample && to > current.end_sample {
                assert(to <= next.start_sample) by {
                    if to > next.start_sample {
                        assert(sorted[at].holds(to - 1) || from > next.start_sample || to - 1
                            < next.start_sample);
                        if from <= next.start_sample {
                            assert(sorted[at].holds(next.start_sample as int));
                            assert(some_holds(sorted, next.start_sample as int));
                        } else {
                            assert(sorted[at].holds(from));
                            assert(some_holds(sorted, from));
                        }
                    }
                }
                assert(from >= current.end_sample) by {
                    if from < current.end_sample {
                        if current.nonempty() {
                            assert(some_holds(sorted, current.end_sample - 1));
                        }
                    }
                }
                let k = choose|k: int|
                    0 <= k < sorted.len() && (#[trigger] sorted[k]).holds(from - 1);
                if k >= at {
                    assert(sorted[k].start_sample >= sorted[at].start_sample);
                    assert(false);
                }
                assert(from <= current.end_sample);
            }
            lemma_bridged(sorted, at + 1, out, grown, limits, total, from, to);
            assert(coalesced_from(sorted, at, out, current, limits, total) == coalesced_from(
                sorted,
                at + 1,
                out,
                grown,
                limits,
                total,
            ));
        } else {
            assert(sorted[at].holds(next.end_sample - 1));
            assert(some_holds(sorted, next.end_sample - 1));
            assert(well_bridged(next, sorted, limits, from, to)) by {
                if next.start_sample < from && to <= next.end_sample {
                    assert(sorted[at].holds(from));
                    assert(some_holds(sorted, from));
                }
            }
            if !current.nonempty() {
                assert(next.start_sample >= current.start_sample);
            }
            assert(next.end_sample >= current.end_sample);
            lemma_bridged(sorted, at + 1, shut, next, limits, total, from, to);
            assert(coalesced_from(sorted, at, out, current, limits, total) == coalesced_from(
                sorted,
                at + 1,
                shut,
                next,
                limits,
                total,
            ));
        }
    } else {
        assert(coalesced_from(sorted, at, out, current, limits, total) == shut);
    }
}

// ---------------------------------------------------------------------------
// Widening and merging
// ---------------------------------------------------------------------------

/// A range widened by `pad` samples on each side, inside the recording.
pub open spec fn widened(range: LongFormVadSlice, total: int, pad: int) -> LongFormVadSlice {
    LongFormVadSlice {
        start_sample: max(0, range.start_sample - pad) as usize,
        end_sample: min(range.end_sample + pad, total) as usize,
    }
}

/// `out`, with one more range: joined to the last of them where it touches it.
pub open spec fn merged_in(
    out: Seq<LongFormVadSlice>,
    range: LongFormVadSlice,
) -> Seq<LongFormVadSlice> {
    if out.len() > 0 && range.start_sample <= out.last().end_sample {
        out.update(
            out.len() - 1,
            LongFormVadSlice {
                end_sample: max(out.last().end_sample as int, range.end_sample as int) as usize,
                ..out.last()
            },
        )
    } else {
        out.push(range)
    }
}

/// The first `count` ranges, widened, with those that touch merged.
pub open spec fn widened_and_merged(
    ranges: Seq<LongFormVadSlice>,
    count: int,
    total: int,
    pad: int,
) -> Seq<LongFormVadSlice>
    decreases count,
{
    if count <= 0 {
        Seq::empty()
    } else {
        let before = widened_and_merged(ranges, count - 1, total, pad);
        let range = ranges[count - 1];
        if range.nonempty() {
            merged_in(before, widened(range, total, pad))
        } else {
            before
        }
    }
}

/// Widens every kept span by `pad_samples` on each side and merges those that then
/// touch.
pub fn expand_and_merge_keep_spans(
    spans: Vec<LongFormVadSlice>,
    total_samples: usize,
    pad_samples: usize,
) -> (expanded: Vec<LongFormVadSlice>)
    ensures
        expanded@ == widened_and_merged(
            spans@,
            spans.len() as int,
            total_samples as int,
            pad_samples as int,
        ),
{
    let mut expanded: Vec<LongFormVadSlice> = Vec::new();
    let mut at: usize = 0;
    while at < spans.len()
        invariant
            at <= spans.len(),
            expanded@ == widened_and_merged(
                spans@,
                at as int,
                total_samples as int,
                pad_samples as int,
            ),
        decreases spans.len() - at,
    {
        let span: LongFormVadSlice = spans[at];
        if span.end_sample > span.start_sample {
            let start_sample: usize = span.start_sample.saturating_sub(pad_samples);
            let end_sample: usize = smaller(
                span.end_sample.saturating_add(pad_samples),
                total_samples,
            );
            let count: usize = expanded.len();
            if count > 0 && start_sample <= expanded[count - 1].end_sample {
                let last: LongFormVadSlice = expanded[count - 1];
                expanded.set(
                    count - 1,
                    LongFormVadSlice { end_sample: larger(last.end_sample, end_sample), ..last },
                );
            } else {
                expanded.push(LongFormVadSlice { start_sample, end_sample });
            }
        }
        at = at + 1;
    }
    expanded
}

/// Widened and merged, ranges in the order of their first samples hold everything that
/// they held, lie inside the recording one after another, and hold nothing further
/// away than `pad` samples.
pub proof fn law_merging_keeps_and_separates(
    ranges: Seq<LongFormVadSlice>,
    count: int,
    total: int,
    pad: int,
)
    requires
        0 <= total <= usize::MAX,
        0 <= pad,
        0 <= count <= ranges.len(),
        all_inside(ranges, total),
        starts_ascend(ranges),
    ensures
        ({
            let merged = widened_and_merged(ranges, count, total, pad);
            &&& all_inside(merged, total)
            &&& separated(merged)
            &&& merged.len() <= count
            &&& count > 0 ==> merged.len() > 0 && merged.last().start_sample <= widened(
                ranges[count - 1],
                total,
                pad,
            ).start_sample
            &&& forall|x: int|
                #[trigger] some_holds(merged, x) <==> exists|i: int|
                    0 <= i < count && widened(#[trigger] ranges[i], total, pad).holds(x)
            &&& forall|x: int|
                #[trigger] some_holds(merged, x) <==> 0 <= x < total && exists|i: int|
                    0 <= i < count && (#[trigger] ranges[i]).start_sample - pad <= x
                        < ranges[i].end_sample + pad
        }),
    decreases count,
{
    let merged = widened_and_merged(ranges, count, total, pad);
    if count > 0 {
        let before = widened_and_merged(ranges, count - 1, total, pad);
        law_merging_keeps_and_separates(ranges, count - 1, total, pad);
        let added = widened(ranges[count - 1], total, pad);
        assert(ranges[count - 1].nonempty());
        if count > 1 {
            assert(ranges[count - 2].start_sample <= ranges[count - 1].start_sample);
        }
        assert forall|x: int| #[trigger] some_holds(merged, x) implies exists|i: int|
            0 <= i < count && widened(#[trigger] ranges[i], total, pad).holds(x) by {
            let k = choose|k: int| 0 <= k < merged.len() && (#[trigger] merged[k]).holds(x);
            if added.holds(x) {
                assert(widened(ranges[count - 1], total, pad).holds(x));
            } else {
                assert(before[k].holds(x));
                assert(some_holds(before, x));
                let i = choose|i: int|
                    0 <= i < count - 1 && widened(#[trigger] ranges[i], total, pad).holds(x);
                assert(widened(ranges[i], total, pad).holds(x));
            }
        }
        assert forall|x: int|
            (exists|i: int|
                0 <= i < count && widened(#[trigger] ranges[i], total, pad).holds(x)) implies
            #[trigger] some_holds(merged, x) by {
            let i = choose|i: int|
                0 <= i < count && widened(#[trigger] ranges[i], total, pad).holds(x);
            if i == count - 1 {
                assert(merged[merged.len() - 1].holds(x));
            } else {
                assert(some_holds(before, x));
                let k = choose|k: int| 0 <= k < before.len() && (#[trigger] before[k]).holds(x);
                assert(merged[k].holds(x));
            }
        }
    }
    assert forall|x: int| #[trigger] some_holds(merged, x) <==> 0 <= x < total && exists|i: int|
        0 <= i < count && (#[trigger] ranges[i]).start_sample - pad <= x < ranges[i].end_sample
            + pad by {
        if some_holds(merged, x) {
            let i = choose|i: int|
                0 <= i < count && widened(#[trigger] ranges[i], total, pad).holds(x);
            assert(ranges[i].nonempty());
        }
        if 0 <= x < total && exists|i: int|
            0 <= i < count && (#[trigger] ranges[i]).start_sample - pad <= x
                < ranges[i].end_sample + pad {
            let i = choose|i: int|
                0 <= i < count && (#[trigger] ranges[i]).start_sample - pad <= x
                    < ranges[i].end_sample + pad;
            assert(widened(ranges[i], total, pad).holds(x));
        }
    }
}

// ---------------------------------------------------------------------------
// What a plan keeps and drops
// ---------------------------------------------------------------------------

/// The parts of the first `count` ranges inside the recording, empty ones left out.
pub open spec fn clipped_ranges(
    ranges: Seq<LongFormVadSlice>,
    count: int,
    total: int,
) -> Seq<LongFormVadSlice>
    decreases count,
{
    if count <= 0 {
        Seq::empty()
    } else {
        let before = clipped_ranges(ranges, count - 1, total);
        let range = ranges[count - 1].clipped(total);
        if range.nonempty() {
            before.push(range)
        } else {
            before
        }
    }
}

/// What the ranges keep of a recording, in order, with those that touch merged.
pub open spec fn kept_ranges(ranges: Seq<LongFormVadSlice>, total: int) -> Seq<
    LongFormVadSlice,
> {
    let sorted = sorting::stably_sorted(
        clipped_ranges(ranges, ranges.len() as int, total),
        starts_before(),
    );
    widened_and_merged(sorted, sorted.len() as int, total, 0)
}

/// What lies before, between and after kept ranges, empty stretches included; nothing
/// for an empty recording of which nothing is kept.
pub open spec fn dropped_ranges(kept: Seq<LongFormVadSlice>, total: int) -> Seq<
    LongFormVadSlice,
> {
    if kept.len() == 0 && total == 0 {
        Seq::empty()
    } else {
        Seq::new(
            kept.len() + 1,
            |i: int|
                LongFormVadSlice {
                    start_sample: if i == 0 {
                        0
                    } else {
                        kept[i - 1].end_sample
                    },
                    end_sample: if i == kept.len() {
                        total as usize
                    } else {
                        kept[i].start_sample
                    },
                },
        )
    }
}

/// What a plan keeps of a recording, and what it drops.
pub fn kept_and_dropped(ranges: &Vec<LongFormVadSlice>, total_samples: usize) -> (parts: (
    Vec<LongFormVadSlice>,
    Vec<LongFormVadSlice>,
))
    ensures
        parts.0@ == kept_ranges(ranges@, total_samples as int),
        parts.1@ == dropped_ranges(parts.0@, total_samples as int),
{
    let mut inside: Vec<LongFormVadSlice> = Vec::new();
    let mut at: usize = 0;
    while at < ranges.len()
        invariant
            at <= ranges.len(),
            inside@ == clipped_ranges(ranges@, at as int, total_samples as int),
        decreases ranges.len() - at,
    {
        let range: LongFormVadSlice = ranges[at].clip(total_samples);
        if range.end_sample > range.start_sample {
            inside.push(range);
        }
        at = at + 1;
    }
    let sorted: Vec<LongFormVadSlice> = sort_by_start(inside);
    let kept: Vec<LongFormVadSlice> = expand_and_merge_keep_spans(sorted, total_samples, 0);
    let mut dropped: Vec<LongFormVadSlice> = Vec::new();
    if kept.len() == 0 {
        if total_samples > 0 {
            dropped.push(LongFormVadSlice { start_sample: 0, end_sample: total_samples });
        }
        assert(dropped@ =~= dropped_ranges(kept@, total_samples as int));
        return (kept, dropped);
    }
    dropped.push(LongFormVadSlice { start_sample: 0, end_sample: kept[0].start_sample });
    let mut next: usize = 1;
    while next < kept.len()
        invariant
            1 <= next <= kept.len(),
            dropped@ == dropped_ranges(kept@, total_samples as int).take(next as int),
        decreases kept.len() - next,
    {
        dropped.push(
            LongFormVadSlice {
                start_sample: kept[next - 1].end_sample,
                end_sample: kept[next].start_sample,
            },
        );
        next = next + 1;
        assert(dropped@ =~= dropped_ranges(kept@, total_samples as int).take(next as int));
    }
    dropped.push(
        LongFormVadSlice {
            start_sample: kept[kept.len() - 1].end_sample,
            end_sample: total_samples,
        },
    );
    assert(dropped@ =~= dropped_ranges(kept@, total_samples as int));
    (kept, dropped)
}

proof fn lemma_clipped_ranges(ranges: Seq<LongFormVadSlice>, count: int, total: int)
    requires
        0 <= count <= ranges.len(),
        0 <= total <= usize::MAX,
    ensures
        all_inside(clipped_ranges(ranges, count, total), total),
        clipped_ranges(ranges, count, total).len() <= count,
        forall|x: int|
            #[trigger] some_holds(clipped_ranges(ranges, count, total), x) <==> x < total
                && exists|i: int| 0 <= i < count && (#[trigger] ranges[i]).holds(x),
    decreases count,
{
    if count > 0 {
        lemma_clipped_ranges(ranges, count - 1, total);
        let before = clipped_ranges(ranges, count - 1, total);
        let after = clipped_ranges(ranges, count, total);
        let range = ranges[count - 1].clipped(total);
        assert forall|x: int| #[trigger] some_holds(after, x) <==> x < total && exists|i: int|
            0 <= i < count && (#[trigger] ranges[i]).holds(x) by {
            if some_holds(after, x) {
                let k = choose|k: int| 0 <= k < after.len() && (#[trigger] after[k]).holds(x);
                if k < before.len() {
                    assert(before[k].holds(x));
                    assert(some_holds(before, x));
                } else {
                    assert(ranges[count - 1].holds(x));
                }
            }
            if x < total && exists|i: int| 0 <= i < count && (#[trigger] ranges[i]).holds(x) {
                let i = choose|i: int| 0 <= i < count && (#[trigger] ranges[i]).holds(x);
                if i == count - 1 {
                    assert(after[after.len() - 1].holds(x));
                } else {
                    assert(some_holds(before, x));
                    let k = choose|k: int| 0 <= k < before.len() && (#[trigger] before[k]).holds(x);
                    assert(after[k].holds(x));
                }
            }
        }
    }
}

/// A recording is split in two: the kept ranges hold exactly the samples of the
/// recording that some range of the plan holds, and the dropped ranges hold exactly the
/// others.
pub proof fn law_kept_and_dropped_split_the_recording(
    ranges: Seq<LongFormVadSlice>,
    total: int,
    x: int,
)
    requires
        0 <= total <= usize::MAX,
    ensures
        all_inside(kept_ranges(ranges, total), total),
        separated(kept_ranges(ranges, total)),
        some_holds(kept_ranges(ranges, total), x) <==> x < total && some_holds(ranges, x),
        some_holds(dropped_ranges(kept_ranges(ranges, total), total), x) <==> 0 <= x < total
            && !some_holds(ranges, x),
{
    let inside = clipped_ranges(ranges, ranges.len() as int, total);
    let sorted = sorting::stably_sorted(inside, starts_before());
    let kept = kept_ranges(ranges, total);
    lemma_clipped_ranges(ranges, ranges.len() as int, total);
    lemma_sorted_by_start(inside);
    assert forall|i: int| 0 <= i < sorted.len() implies (#[trigger] sorted[i]).nonempty()
        && sorted[i].end_sample <= total by {
        assert(sorted.contains(sorted[i]));
        assert(inside.contains(sorted[i]));
    }
    law_merging_keeps_and_separates(sorted, sorted.len() as int, total, 0);
    assert(some_holds(kept, x) <==> some_holds(sorted, x)) by {
        assert(forall|i: int| 0 <= i < sorted.len() ==> widened(#[trigger] sorted[i], total, 0) == sorted[i]);
        if some_holds(sorted, x) {
            let i = choose|i: int| 0 <= i < sorted.len() && (#[trigger] sorted[i]).holds(x);
            assert(widened(sorted[i], total, 0).holds(x));
        }
        if some_holds(kept, x) {
            let i = choose|i: int|
                0 <= i < sorted.len() && widened(#[trigger] sorted[i], total, 0).holds(x);
            assert(sorted[i].holds(x));
        }
    }
    assert(some_holds(inside, x) <==> x < total && some_holds(ranges, x));
    lemma_dropped_is_the_rest(kept, total, x);
}

proof fn lemma_dropped_is_the_rest(kept: Seq<LongFormVadSlice>, total: int, x: int)
    requires
        0 <= total <= usize::MAX,
        all_inside(kept, total),
        separated(kept),
    ensures
        some_holds(dropped_ranges(kept, total), x) <==> 0 <= x < total && !some_holds(kept, x),
{
    let dropped = dropped_ranges(kept, total);
    if some_holds(dropped, x) {
        let d = choose|d: int| 0 <= d < dropped.len() && (#[trigger] dropped[d]).holds(x);
        assert forall|i: int| 0 <= i < kept.len() implies !(#[trigger] kept[i]).holds(x) by {
            if i < d {
                if i < d - 1 {
                    assert(kept[i].end_sample < kept[d - 1].start_sample);
                }
                assert(kept[d - 1].nonempty());
            } else if i > d {
                assert(kept[d].end_sample < kept[i].start_sample);
                assert(kept[d].nonempty());
            }
        }
        if d < kept.len() {
            assert(kept[d].nonempty());
        }
    }
    if 0 <= x < total && !some_holds(kept, x) {
        let d = lemma_gap_of(kept, total, x, kept.len() as int);
        assert(dropped[d].holds(x));
    }
}

/// The gap among the first `count` kept ranges that a sample outside all of them falls
/// in.
proof fn lemma_gap_of(kept: Seq<LongFormVadSlice>, total: int, x: int, count: int) -> (d: int)
    requires
        0 <= count <= kept.len(),
        0 <= x < total,
        all_inside(kept, total),
        separated(kept),
        !some_holds(kept, x),
        count < kept.len() ==> x < kept[count].start_sample,
    ensures
        0 <= d <= count,
        d > 0 ==> kept[d - 1].end_sample <= x,
        d < kept.len() ==> x < kept[d].start_sample,
    decreases count,
{
    if count == 0 {
        0
    } else {
        assert(!kept[count - 1].holds(x));
        if kept[count - 1].end_sample <= x {
            count
        } else {
            lemma_gap_of(kept, total, x, count - 1)
        }
    }
}

/// What is dropped lies, in order, before the first kept range, between two neighbours, and
/// behind the last.
pub proof fn law_dropped_ranges_lie_between(kept: Seq<LongFormVadSlice>, total: int, i: int)
    requires
        0 < total <= usize::MAX,
        0 <= i <= kept.len(),
    ensures
        ({
            let dropped = dropped_ranges(kept, total);
            &&& dropped.len() == kept.len() + 1
            &&& i == 0 ==> dropped[i].start_sample == 0
            &&& i > 0 ==> dropped[i].start_sample == kept[i - 1].end_sample
            &&& i < kept.len() ==> dropped[i].end_sample == kept[i].start_sample
            &&& i == kept.len() ==> dropped[i].end_sample == total
        }),
{
}

/// Every dropped range is a range of the recording.
pub proof fn lemma_dropped_ranges_are_ranges(ranges: Seq<LongFormVadSlice>, total: int)
    requires
        0 <= total <= usize::MAX,
    ensures
        ({
            let dropped = dropped_ranges(kept_ranges(ranges, total), total);
            forall|i: int|
                0 <= i < dropped.len() ==> (#[trigger] dropped[i]).start_sample
                    <= dropped[i].end_sample <= total
        }),
{
    let kept = kept_ranges(ranges, total);
    let dropped = dropped_ranges(kept, total);
    law_kept_and_dropped_split_the_recording(ranges, total, 0);
    assert forall|i: int| 0 <= i < dropped.len() implies (#[trigger] dropped[i]).start_sample
        <= dropped[i].end_sample <= total by {
        if i > 0 {
            assert(kept[i - 1].nonempty());
        }
        if i < kept.len() {
            assert(kept[i].nonempty());
        }
        if 0 < i < kept.len() {
            assert(kept[i - 1].end_sample < kept[i].start_sample);
        }
    }
}

/// Total length of the first `count` ranges.
pub open spec fn total_length(ranges: Seq<LongFormVadSlice>, count: int) -> int
    decreases count,
{
    if count <= 0 {
        0
    } else {
        total_length(ranges, count - 1) + ranges[count - 1].length()
    }
}

/// Ranges that come one after another hold no more samples than the recording, and
/// there are no more of them than samples.
pub proof fn law_separated_ranges_fit(ranges: Seq<LongFormVadSlice>, count: int, total: int)
    requires
        0 <= count <= ranges.len(),
        all_inside(ranges, total),
        separated(ranges),
        0 <= total,
    ensures
        count <= total_length(ranges, count) <= total,
        count > 0 ==> total_length(ranges, count) <= ranges[count - 1].end_sample,
    decreases count,
{
    if count > 0 {
        law_separated_ranges_fit(ranges, count - 1, total);
        assert(ranges[count - 1].nonempty());
        if count > 1 {
            assert(ranges[count - 2].end_sample < ranges[count - 1].start_sample);
        }
    }
}

/// An empty range adds nothing to what is kept, however it would be padded.
pub proof fn law_empty_ranges_keep_nothing(
    ranges: Seq<LongFormVadSlice>,
    count: int,
    total: int,
    pad: int,
)
    requires
        0 < count <= ranges.len(),
        ranges[count - 1].end_sample <= ranges[count - 1].start_sample,
    ensures
        widened_and_merged(ranges, count, total, pad) == widened_and_merged(
            ranges,
            count - 1,
            total,
            pad,
        ),
{
}

/// There is a stretch before, between and after kept ranges, be it empty; only of nothing, where
/// nothing is kept, nothing is left.
pub proof fn law_kept_ranges_leave_one_stretch_more(kept: Seq<LongFormVadSlice>, total: int)
    ensures
        dropped_ranges(kept, total).len() == 0 <==> kept.len() == 0 && total == 0,
        kept.len() > 0 || total != 0 ==> dropped_ranges(kept, total).len() == kept.len() + 1,
{
}

} // verus!
