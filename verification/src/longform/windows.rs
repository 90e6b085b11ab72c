//! The planners that cut a recording, or a stretch of it, into slices.

use vstd::math::*;
use vstd::prelude::*;

use crate::longform::energy;
use crate::longform::energy::{choose_forced_cut, find_lowest_energy_split, forced_cut_overlap_samples};
use crate::longform::options::LongFormOptions;
use crate::longform::slices;
use crate::longform::slices::{
    advance_window_start, executor_window_end, larger, smaller, unpadded_slice, vad_slice,
    AudioSlice, AudioSliceKind,
};

verus! {

/// Whether `after` continues `before` with slices of one kind that cover `[from, to)`:
/// each starts inside or right at the end of the one before it, moves forward, holds
/// at least one sample and no more than the ceiling, and is numbered by its place.
pub open spec fn extends_over(
    before: Seq<AudioSlice>,
    after: Seq<AudioSlice>,
    kind: AudioSliceKind,
    from: int,
    to: int,
    ceiling: int,
) -> bool {
    &&& before.len() < after.len()
    &&& forall|i: int| 0 <= i < before.len() ==> #[trigger] after[i] == before[i]
    &&& after[before.len() as int].content_start_sample == from
    &&& after.last().content_end_sample == to
    &&& forall|i: int, j: int|
        #![trigger after[i], after[j]]
        before.len() <= i && i + 1 == j && j < after.len() ==> after[i].content_start_sample
            < after[j].content_start_sample <= after[i].content_end_sample
    &&& forall|i: int|
        before.len() <= i < after.len() ==> {
            &&& (#[trigger] after[i]).index == i as usize
            &&& after[i].kind == kind
            &&& after[i].content_start_sample < after[i].content_end_sample <= to
            &&& after[i].content_duration() <= ceiling
        }
}

proof fn lemma_extension_step(
    before: Seq<AudioSlice>,
    slice: AudioSlice,
    after: Seq<AudioSlice>,
    kind: AudioSliceKind,
    next: int,
    to: int,
    ceiling: int,
)
    requires
        extends_over(before.push(slice), after, kind, next, to, ceiling),
        slice.index == before.len() as usize,
        slice.kind == kind,
        slice.content_start_sample < slice.content_end_sample <= to,
        slice.content_duration() <= ceiling,
        slice.content_start_sample < next <= slice.content_end_sample,
    ensures
        extends_over(before, after, kind, slice.content_start_sample as int, to, ceiling),
{
    let pushed = before.push(slice);
    assert(after[before.len() as int] == pushed[before.len() as int]);
    assert forall|i: int| 0 <= i < before.len() implies #[trigger] after[i] == before[i] by {
        assert(after[i] == pushed[i]);
    }
}

// ---------------------------------------------------------------------------
// Fixed windows
// ---------------------------------------------------------------------------

/// End of the fixed window at `start`.
pub open spec fn fixed_end(start: int, total: int, options: LongFormOptions, ceiling: int) -> int {
    slices::window_end(start, min(start + options.chunk_samples, total), total, ceiling)
}

/// Whether the window `[start, end)` is a short tail that the slice before it may
/// take in without crossing the ceiling.
pub open spec fn is_mergeable_tail(
    built: Seq<AudioSlice>,
    start: int,
    end: int,
    total: int,
    options: LongFormOptions,
    ceiling: int,
) -> bool {
    &&& end - start < options.min_chunk_samples
    &&& built.len() > 0
    &&& max(0, total - built.last().content_start_sample) <= ceiling
}

/// The fixed windows from `start` on, behind those already built.
pub open spec fn fixed_slices(
    built: Seq<AudioSlice>,
    start: int,
    total: int,
    options: LongFormOptions,
    ceiling: int,
) -> Seq<AudioSlice>
    decreases total - start,
{
    let end = fixed_end(start, total, options, ceiling);
    if start >= total || end <= start {
        built
    } else if is_mergeable_tail(built, start, end, total, options, ceiling) {
        built.update(
            built.len() - 1,
            AudioSlice { content_end_sample: total as usize, ..built.last() },
        )
    } else {
        let pushed = built.push(
            slices::plain_slice(built.len() as int, AudioSliceKind::Fixed, start, end),
        );
        if end == total {
            pushed
        } else {
            fixed_slices(
                pushed,
                slices::next_start(start, end, options.overlap_samples as int),
                total,
                options,
                ceiling,
            )
        }
    }
}

/// Windows of `chunk_samples`, each `overlap_samples` into the one before it. A last
/// window below `min_chunk_samples` joins the slice before it, as long as that slice
/// stays under the ceiling.
pub fn plan_fixed_slices(
    total_samples: usize,
    sample_rate_hz: u32,
    options: &LongFormOptions,
) -> (planned: Vec<AudioSlice>)
    requires
        options.has_ceiling(sample_rate_hz),
    ensures
        planned@ == fixed_slices(
            Seq::empty(),
            0,
            total_samples as int,
            *options,
            options.ceiling(sample_rate_hz),
        ),
{
    let max_chunk_samples: usize = options.max_chunk_samples(sample_rate_hz);
    let ghost whole = fixed_slices(
        Seq::empty(),
        0,
        total_samples as int,
        *options,
        max_chunk_samples as int,
    );
    let mut start: usize = 0;
    let mut planned: Vec<AudioSlice> = Vec::new();
    while start < total_samples
        invariant
            whole == fixed_slices(
                planned@,
                start as int,
                total_samples as int,
                *options,
                max_chunk_samples as int,
            ),
            max_chunk_samples == options.ceiling(sample_rate_hz),
            whole == fixed_slices(
                Seq::empty(),
                0,
                total_samples as int,
                *options,
                max_chunk_samples as int,
            ),
        decreases total_samples - start,
    {
        let soft_end: usize = smaller(start.saturating_add(options.chunk_samples), total_samples);
        let end: usize = executor_window_end(start, soft_end, total_samples, max_chunk_samples);
        if end <= start {
            return planned;
        }
        if end - start < options.min_chunk_samples && planned.len() > 0 {
            let last_at: usize = planned.len() - 1;
            let last: AudioSlice = planned[last_at];
            if total_samples.saturating_sub(last.content_start_sample) <= max_chunk_samples {
                planned.set(last_at, AudioSlice { content_end_sample: total_samples, ..last });
                return planned;
            }
        }
        let index: usize = planned.len();
        planned.push(unpadded_slice(index, AudioSliceKind::Fixed, start, end));
        if end == total_samples {
            return planned;
        }
        start = advance_window_start(start, end, options.overlap_samples);
    }
    planned
}

/// Fixed windows cover the whole recording without a gap, and no content range crosses
/// the executor ceiling.
pub proof fn law_fixed_slices_cover_the_recording(
    total: int,
    options: LongFormOptions,
    ceiling: int,
)
    requires
        0 < total <= usize::MAX,
        options.chunk_samples >= 1,
        ceiling >= 1,
    ensures
        extends_over(
            Seq::empty(),
            fixed_slices(Seq::empty(), 0, total, options, ceiling),
            AudioSliceKind::Fixed,
            0,
            total,
            ceiling,
        ),
{
    lemma_fixed_slices(Seq::empty(), 0, total, options, ceiling);
}

/// Whether fixed windows have been laid over `[0, start)` and reach into `start`.
spec fn fixed_so_far(
    built: Seq<AudioSlice>,
    start: int,
    total: int,
    options: LongFormOptions,
    ceiling: int,
) -> bool {
    if built.len() == 0 {
        start == 0
    } else {
        &&& built.last().content_end_sample < total
        &&& built.last().content_duration() == min(options.chunk_samples as int, ceiling)
        &&& built.last().content_start_sample < start <= built.last().content_end_sample
        &&& extends_over(
            Seq::empty(),
            built,
            AudioSliceKind::Fixed,
            0,
            built.last().content_end_sample as int,
            ceiling,
        )
    }
}

proof fn lemma_fixed_slices(
    built: Seq<AudioSlice>,
    start: int,
    total: int,
    options: LongFormOptions,
    ceiling: int,
)
    requires
        0 <= start < total <= usize::MAX,
        options.chunk_samples >= 1,
        ceiling >= 1,
        fixed_so_far(built, start, total, options, ceiling),
    ensures
        extends_over(
            Seq::empty(),
            fixed_slices(built, start, total, options, ceiling),
            AudioSliceKind::Fixed,
            0,
            total,
            ceiling,
        ),
    decreases total - start,
{
    let end = fixed_end(start, total, options, ceiling);
    if is_mergeable_tail(built, start, end, total, options, ceiling) {
    } else {
        let pushed = built.push(
            slices::plain_slice(built.len() as int, AudioSliceKind::Fixed, start, end),
        );
        if end < total {
            assert(extends_over(Seq::empty(), pushed, AudioSliceKind::Fixed, 0, end, ceiling));
            lemma_fixed_slices(
                pushed,
                slices::next_start(start, end, options.overlap_samples as int),
                total,
                options,
                ceiling,
            );
        }
    }
}

/// Whether a window that starts at `next` follows one over `[start, end)`: `overlap` samples
/// before its end, or right at its end where that would not move forward.
pub open spec fn follows(start: int, end: int, overlap: int, next: int) -> bool {
    &&& end - overlap > start ==> next == end - overlap
    &&& end - overlap <= start ==> next == end
}

/// Every fixed window but the last holds a chunk, or as much of it as the ceiling lets
/// through, and the next one starts the overlap before its end. The last one ends with the
/// recording: it holds no more than the others, or it has taken in the rest because the next
/// window would have held less than the least chunk. No window but the first is laid with
/// less than the least chunk, unless the rest would not have fit the one before it.
pub proof fn law_fixed_windows_hold_a_chunk(total: int, options: LongFormOptions, ceiling: int)
    requires
        0 < total <= usize::MAX,
        options.chunk_samples >= 1,
        ceiling >= 1,
    ensures
        ({
            let planned = fixed_slices(Seq::empty(), 0, total, options, ceiling);
            let length = min(options.chunk_samples as int, ceiling);
            let last = planned.last();
            let rest = total - last.content_start_sample;
            &&& forall|i: int, j: int|
                #![trigger planned[i], planned[j]]
                0 <= i && i + 1 == j && j < planned.len() ==> {
                    &&& planned[i].content_end_sample - planned[i].content_start_sample == length
                    &&& follows(
                        planned[i].content_start_sample as int,
                        planned[i].content_end_sample as int,
                        options.overlap_samples as int,
                        planned[j].content_start_sample as int,
                    )
                    &&& min(length, total - planned[j].content_start_sample)
                        < options.min_chunk_samples ==> total - planned[i].content_start_sample
                        > ceiling
                }
            &&& last.content_end_sample == total
            &&& rest > length ==> rest <= ceiling && exists|tail: int| #[trigger]
                follows(
                    last.content_start_sample as int,
                    last.content_start_sample + length,
                    options.overlap_samples as int,
                    tail,
                ) && tail < total && min(length, total - tail)
                    < options.min_chunk_samples
        }),
{
    lemma_fixed_windows(Seq::empty(), 0, total, options, ceiling);
}

/// Whether fixed windows that have been laid all hold a chunk and follow one another.
spec fn are_chunks(
    built: Seq<AudioSlice>,
    start: int,
    total: int,
    options: LongFormOptions,
    ceiling: int,
) -> bool {
    let length = min(options.chunk_samples as int, ceiling);
    &&& forall|i: int|
        0 <= i < built.len() ==> (#[trigger] built[i]).content_end_sample
            - built[i].content_start_sample == length
    &&& forall|i: int, j: int|
        #![trigger built[i], built[j]]
        0 <= i && i + 1 == j && j < built.len() ==> follows(
            built[i].content_start_sample as int,
            built[i].content_end_sample as int,
            options.overlap_samples as int,
            built[j].content_start_sample as int,
        ) && (min(length, total - built[j].content_start_sample) < options.min_chunk_samples
            ==> total - built[i].content_start_sample > ceiling)
    &&& built.len() == 0 ==> start == 0
    &&& built.len() > 0 ==> follows(
        built.last().content_start_sample as int,
        built.last().content_end_sample as int,
        options.overlap_samples as int,
        start,
    )
}

proof fn lemma_fixed_windows(
    built: Seq<AudioSlice>,
    start: int,
    total: int,
    options: LongFormOptions,
    ceiling: int,
)
    requires
        0 <= start < total <= usize::MAX,
        options.chunk_samples >= 1,
        ceiling >= 1,
        are_chunks(built, start, total, options, ceiling),
    ensures
        ({
            let planned = fixed_slices(built, start, total, options, ceiling);
            let length = min(options.chunk_samples as int, ceiling);
            let last = planned.last();
            let rest = total - last.content_start_sample;
            &&& planned.len() > 0
            &&& forall|i: int, j: int|
                #![trigger planned[i], planned[j]]
                0 <= i && i + 1 == j && j < planned.len() ==> {
                    &&& planned[i].content_end_sample - planned[i].content_start_sample == length
                    &&& follows(
                        planned[i].content_start_sample as int,
                        planned[i].content_end_sample as int,
                        options.overlap_samples as int,
                        planned[j].content_start_sample as int,
                    )
                    &&& min(length, total - planned[j].content_start_sample)
                        < options.min_chunk_samples ==> total - planned[i].content_start_sample
                        > ceiling
                }
            &&& last.content_end_sample == total
            &&& rest > length ==> rest <= ceiling && exists|tail: int| #[trigger]
                follows(
                    last.content_start_sample as int,
                    last.content_start_sample + length,
                    options.overlap_samples as int,
                    tail,
                ) && tail < total && min(length, total - tail)
                    < options.min_chunk_samples
        }),
    decreases total - start,
{
    let end = fixed_end(start, total, options, ceiling);
    let planned = fixed_slices(built, start, total, options, ceiling);
    if is_mergeable_tail(built, start, end, total, options, ceiling) {
        assert(built.last() == built[built.len() - 1]);
        assert(planned.last().content_start_sample == built.last().content_start_sample);
        assert(follows(
            planned.last().content_start_sample as int,
            planned.last().content_start_sample + min(options.chunk_samples as int, ceiling),
            options.overlap_samples as int,
            start,
        ));
        assert forall|i: int, j: int|
            #![trigger planned[i], planned[j]]
            0 <= i && i + 1 == j && j < planned.len() implies {
            &&& planned[i].content_end_sample - planned[i].content_start_sample == min(
                options.chunk_samples as int,
                ceiling,
            )
            &&& follows(
                planned[i].content_start_sample as int,
                planned[i].content_end_sample as int,
                options.overlap_samples as int,
                planned[j].content_start_sample as int,
            )
            &&& min(
                min(options.chunk_samples as int, ceiling),
                total - planned[j].content_start_sample,
            ) < options.min_chunk_samples ==> total - planned[i].content_start_sample > ceiling
        } by {
            assert(planned[i] == built[i]);
            assert(planned[j].content_start_sample == built[j].content_start_sample);
        }
    } else {
        let slice = slices::plain_slice(built.len() as int, AudioSliceKind::Fixed, start, end);
        let pushed = built.push(slice);
        assert forall|i: int, j: int|
            #![trigger pushed[i], pushed[j]]
            0 <= i && i + 1 == j && j < pushed.len() implies follows(
            pushed[i].content_start_sample as int,
            pushed[i].content_end_sample as int,
            options.overlap_samples as int,
            pushed[j].content_start_sample as int,
        ) && pushed[i].content_end_sample - pushed[i].content_start_sample == min(
            options.chunk_samples as int,
            ceiling,
        ) && (min(
            min(options.chunk_samples as int, ceiling),
            total - pushed[j].content_start_sample,
        ) < options.min_chunk_samples ==> total - pushed[i].content_start_sample > ceiling) by {
            assert(pushed[i] == built[i]);
            if j < built.len() {
                assert(pushed[j] == built[j]);
            } else {
                assert(built[i] == built.last());
            }
        }
        if end < total {
            assert forall|i: int| 0 <= i < pushed.len() implies (
            #[trigger] pushed[i]).content_end_sample - pushed[i].content_start_sample == min(
                options.chunk_samples as int,
                ceiling,
            ) by {
                if i < built.len() {
                    assert(pushed[i] == built[i]);
                }
            }
            lemma_fixed_windows(
                pushed,
                slices::next_start(start, end, options.overlap_samples as int),
                total,
                options,
                ceiling,
            );
        } else {
            assert(planned == pushed);
        }
    }
}

// ---------------------------------------------------------------------------
// Windows cut at quiet frames
// ---------------------------------------------------------------------------

/// End of the energy window at `start`: the quietest frame near the target, or the
/// stretch's end where the target reaches it.
pub open spec fn energy_end(
    levels: spec_fn(int, int) -> u32,
    sample_count: int,
    start: int,
    limit: int,
    options: LongFormOptions,
    ceiling: int,
) -> int {
    let hard_end = min(start + ceiling, limit);
    let desired = min(start + options.chunk_samples, limit);
    let floor = start + options.min_chunk_samples;
    if desired == limit {
        slices::window_end(start, desired, limit, ceiling)
    } else {
        let found = energy::quietest_split(
            levels,
            sample_count,
            max(max(0, desired - options.search_samples), floor),
            min(desired + options.search_samples, hard_end),
        );
        let split = if found is Some {
            found->Some_0.0
        } else {
            desired
        };
        min(max(split, floor), hard_end)
    }
}

/// The energy windows from `start` on, behind those already built.
pub open spec fn energy_slices(
    built: Seq<AudioSlice>,
    levels: spec_fn(int, int) -> u32,
    sample_count: int,
    start: int,
    limit: int,
    options: LongFormOptions,
    ceiling: int,
) -> Seq<AudioSlice>
    decreases limit - start,
{
    let end = energy_end(levels, sample_count, start, limit, options, ceiling);
    if start >= limit || end <= start {
        built
    } else {
        let pushed = built.push(
            slices::plain_slice(built.len() as int, AudioSliceKind::Energy, start, end),
        );
        if end >= limit {
            pushed
        } else {
            energy_slices(
                pushed,
                levels,
                sample_count,
                slices::next_start(start, end, options.overlap_samples as int),
                limit,
                options,
                ceiling,
            )
        }
    }
}

/// Settings under which every energy window holds at least one sample.
pub open spec fn energy_windows_advance(options: LongFormOptions, ceiling: int) -> bool {
    &&& ceiling >= 1
    &&& options.min_chunk_samples >= 1 || (options.chunk_samples >= 1 && (ceiling >= 2
        || options.search_samples < options.chunk_samples))
}

proof fn lemma_energy_end(
    levels: spec_fn(int, int) -> u32,
    sample_count: int,
    start: int,
    limit: int,
    options: LongFormOptions,
    ceiling: int,
)
    requires
        0 <= start < limit <= sample_count,
        energy_windows_advance(options, ceiling),
    ensures
        ({
            let end = energy_end(levels, sample_count, start, limit, options, ceiling);
            start < end <= limit && end - start <= ceiling
        }),
{
    let hard_end = min(start + ceiling, limit);
    let desired = min(start + options.chunk_samples, limit);
    let floor = start + options.min_chunk_samples;
    let lo = max(max(0, desired - options.search_samples), floor);
    let hi = min(desired + options.search_samples, hard_end);
    energy::law_splits_lie_in_the_searched_range(levels, sample_count, lo, hi, 0);
    energy::lemma_split_of_a_wide_range(levels, sample_count, lo, hi);
}

/// Cuts `[span_start, span_end)`, as far as the recording goes, into windows that end
/// at the quietest frame near `chunk_samples`, and appends them.
pub fn extend_energy_slices_for_span<L: Fn(usize, usize) -> u32>(
    planned: &mut Vec<AudioSlice>,
    meter: &L,
    sample_count: usize,
    span_start: usize,
    span_end: usize,
    sample_rate_hz: u32,
    options: &LongFormOptions,
)
    requires
        energy::meters(*meter, sample_count as int),
        options.has_ceiling(sample_rate_hz),
        energy_windows_advance(*options, options.ceiling(sample_rate_hz)),
    ensures
        final(planned)@ == energy_slices(
            old(planned)@,
            energy::levels_of(*meter),
            sample_count as int,
            min(span_start as int, sample_count as int),
            min(span_end as int, sample_count as int),
            *options,
            options.ceiling(sample_rate_hz),
        ),
{
    let max_chunk_samples: usize = options.max_chunk_samples(sample_rate_hz);
    let mut start: usize = smaller(span_start, sample_count);
    let limit: usize = smaller(span_end, sample_count);
    let ghost levels = energy::levels_of(*meter);
    let ghost whole = energy_slices(
        planned@,
        levels,
        sample_count as int,
        start as int,
        limit as int,
        *options,
        max_chunk_samples as int,
    );
    while start < limit
        invariant
            limit <= sample_count,
            energy::meters(*meter, sample_count as int),
            levels == energy::levels_of(*meter),
            energy_windows_advance(*options, max_chunk_samples as int),
            whole == energy_slices(
                planned@,
                levels,
                sample_count as int,
                start as int,
                limit as int,
                *options,
                max_chunk_samples as int,
            ),
            whole == energy_slices(
                old(planned)@,
                levels,
                sample_count as int,
                min(span_start as int, sample_count as int),
                min(span_end as int, sample_count as int),
                *options,
                options.ceiling(sample_rate_hz),
            ),
        decreases limit - start,
    {
        let hard_end: usize = smaller(start.saturating_add(max_chunk_samples), limit);
        let desired: usize = smaller(start.saturating_add(options.chunk_samples), limit);
        let end: usize = if desired == limit {
            executor_window_end(start, desired, limit, max_chunk_samples)
        } else {
            let floor: usize = start.saturating_add(options.min_chunk_samples);
            let search_start: usize = larger(
                desired.saturating_sub(options.search_samples),
                floor,
            );
            let search_end: usize = smaller(
                desired.saturating_add(options.search_samples),
                hard_end,
            );
            proof {
                energy::lemma_no_split_of_an_empty_range(
                    levels,
                    sample_count as int,
                    search_start as int,
                    search_end as int,
                );
                energy::lemma_no_split_of_an_empty_range(
                    levels,
                    sample_count as int,
                    max(
                        max(0, desired - options.search_samples),
                        start + options.min_chunk_samples,
                    ),
                    search_end as int,
                );
            }
            let split: usize = match find_lowest_energy_split(
                meter,
                sample_count,
                search_start,
                search_end,
            ) {
                Some(found) => found,
                None => desired,
            };
            smaller(larger(split, floor), hard_end)
        };
        proof {
            assert(end == energy_end(
                levels,
                sample_count as int,
                start as int,
                limit as int,
                *options,
                max_chunk_samples as int,
            ));
            lemma_energy_end(
                levels,
                sample_count as int,
                start as int,
                limit as int,
                *options,
                max_chunk_samples as int,
            );
        }
        let index: usize = planned.len();
        planned.push(unpadded_slice(index, AudioSliceKind::Energy, start, end));
        if end >= limit {
            return;
        }
        start = advance_window_start(start, end, options.overlap_samples);
    }
}

/// Energy windows over a stretch cover it without a gap, and none crosses the
/// executor ceiling.
pub proof fn law_energy_slices_cover_the_stretch(
    built: Seq<AudioSlice>,
    levels: spec_fn(int, int) -> u32,
    sample_count: int,
    start: int,
    limit: int,
    options: LongFormOptions,
    ceiling: int,
)
    requires
        0 <= start < limit <= sample_count <= usize::MAX,
        energy_windows_advance(options, ceiling),
    ensures
        extends_over(
            built,
            energy_slices(built, levels, sample_count, start, limit, options, ceiling),
            AudioSliceKind::Energy,
            start,
            limit,
            ceiling,
        ),
    decreases limit - start,
{
    lemma_energy_end(levels, sample_count, start, limit, options, ceiling);
    let end = energy_end(levels, sample_count, start, limit, options, ceiling);
    let slice = slices::plain_slice(built.len() as int, AudioSliceKind::Energy, start, end);
    let pushed = built.push(slice);
    let after = energy_slices(built, levels, sample_count, start, limit, options, ceiling);
    if end < limit {
        let next = slices::next_start(start, end, options.overlap_samples as int);
        law_energy_slices_cover_the_stretch(
            pushed,
            levels,
            sample_count,
            next,
            limit,
            options,
            ceiling,
        );
        lemma_extension_step(built, slice, after, AudioSliceKind::Energy, next, limit, ceiling);
    }
}

/// Energy windows are fed unpadded.
pub proof fn lemma_energy_slices_are_plain(
    built: Seq<AudioSlice>,
    levels: spec_fn(int, int) -> u32,
    sample_count: int,
    start: int,
    limit: int,
    options: LongFormOptions,
    ceiling: int,
)
    ensures
        ({
            let after = energy_slices(
                built,
                levels,
                sample_count,
                start,
                limit,
                options,
                ceiling,
            );
            &&& built.len() <= after.len()
            &&& forall|i: int| 0 <= i < built.len() ==> #[trigger] after[i] == built[i]
            &&& forall|i: int|
                built.len() <= i < after.len() ==> (#[trigger] after[i]).start_sample
                    == after[i].content_start_sample && after[i].end_sample
                    == after[i].content_end_sample
        }),
    decreases limit - start,
{
    let end = energy_end(levels, sample_count, start, limit, options, ceiling);
    if start < limit && start < end < limit {
        let pushed = built.push(
            slices::plain_slice(built.len() as int, AudioSliceKind::Energy, start, end),
        );
        let after = energy_slices(built, levels, sample_count, start, limit, options, ceiling);
        lemma_energy_slices_are_plain(
            pushed,
            levels,
            sample_count,
            slices::next_start(start, end, options.overlap_samples as int),
            limit,
            options,
            ceiling,
        );
        assert(after[built.len() as int] == pushed[built.len() as int]);
        assert forall|i: int| 0 <= i < built.len() implies #[trigger] after[i] == built[i] by {
            assert(after[i] == pushed[i]);
        }
    }
}

/// Whether an energy window over `[start, end)` of a stretch up to `limit` ends where it
/// should. Where a chunk reaches the limit it ends there, or at the ceiling. Else it ends at
/// the middle of the earliest of the quietest frames within the search of a chunk behind its
/// start, no nearer to it than the least chunk and no further than ceiling and limit; or a
/// chunk behind its start where no frame of that range has a finite level.
pub open spec fn ends_at_the_quietest(
    levels: spec_fn(int, int) -> u32,
    sample_count: int,
    start: int,
    end: int,
    limit: int,
    options: LongFormOptions,
    ceiling: int,
) -> bool {
    let desired = start + options.chunk_samples;
    let least = start + options.min_chunk_samples;
    let most = min(start + ceiling, limit);
    let from = max(max(0, desired - options.search_samples), least);
    let to = min(min(desired + options.search_samples, most), sample_count);
    if desired >= limit {
        end == most
    } else if energy::some_frame_is_finite(levels, from, to) {
        exists|at: int| #[trigger]
            energy::is_middle_of_the_quietest(levels, from, to, at) && end == min(
                max(at, least),
                most,
            )
    } else {
        end == min(max(desired, least), most)
    }
}

/// Every energy window of a finished plan ends at the quietest frame near a chunk behind its
/// own start, or with the stretch, and the next one starts the overlap before its end.
pub proof fn law_energy_windows_end_at_the_quietest(
    built: Seq<AudioSlice>,
    levels: spec_fn(int, int) -> u32,
    sample_count: int,
    start: int,
    limit: int,
    options: LongFormOptions,
    ceiling: int,
)
    requires
        0 <= start < limit <= sample_count <= usize::MAX,
        energy_windows_advance(options, ceiling),
    ensures
        ({
            let planned = energy_slices(
                built,
                levels,
                sample_count,
                start,
                limit,
                options,
                ceiling,
            );
            &&& built.len() < planned.len()
            &&& planned[built.len() as int].content_start_sample == start
            &&& forall|i: int|
                built.len() <= i < planned.len() ==> ends_at_the_quietest(
                    levels,
                    sample_count,
                    (#[trigger] planned[i]).content_start_sample as int,
                    planned[i].content_end_sample as int,
                    limit,
                    options,
                    ceiling,
                )
            &&& forall|i: int, j: int|
                #![trigger planned[i], planned[j]]
                built.len() <= i && i + 1 == j && j < planned.len() ==> follows(
                    planned[i].content_start_sample as int,
                    planned[i].content_end_sample as int,
                    options.overlap_samples as int,
                    planned[j].content_start_sample as int,
                )
        }),
    decreases limit - start,
{
    lemma_energy_end(levels, sample_count, start, limit, options, ceiling);
    let end = energy_end(levels, sample_count, start, limit, options, ceiling);
    let slice = slices::plain_slice(built.len() as int, AudioSliceKind::Energy, start, end);
    let pushed = built.push(slice);
    let planned = energy_slices(built, levels, sample_count, start, limit, options, ceiling);
    let desired = start + options.chunk_samples;
    energy::law_the_quietest_frame_is_found(
        levels,
        sample_count,
        max(max(0, desired - options.search_samples), start + options.min_chunk_samples),
        min(desired + options.search_samples, min(start + ceiling, limit)),
    );
    assert(ends_at_the_quietest(levels, sample_count, start, end, limit, options, ceiling));
    lemma_energy_slices_are_plain(built, levels, sample_count, start, limit, options, ceiling);
    if end < limit {
        let next = slices::next_start(start, end, options.overlap_samples as int);
        law_energy_windows_end_at_the_quietest(
            pushed,
            levels,
            sample_count,
            next,
            limit,
            options,
            ceiling,
        );
        lemma_energy_slices_are_plain(pushed, levels, sample_count, next, limit, options, ceiling);
        assert(planned[built.len() as int] == pushed[built.len() as int]);
    }
}

/// Energy windows over a whole recording.
pub fn plan_energy_slices<L: Fn(usize, usize) -> u32>(
    meter: &L,
    sample_count: usize,
    sample_rate_hz: u32,
    options: &LongFormOptions,
) -> (planned: Vec<AudioSlice>)
    requires
        energy::meters(*meter, sample_count as int),
        options.has_ceiling(sample_rate_hz),
        energy_windows_advance(*options, options.ceiling(sample_rate_hz)),
    ensures
        planned@ == energy_slices(
            Seq::empty(),
            energy::levels_of(*meter),
            sample_count as int,
            0,
            sample_count as int,
            *options,
            options.ceiling(sample_rate_hz),
        ),
{
    plan_energy_slices_contiguous(meter, 0, sample_count, sample_rate_hz, options)
}

/// Energy windows from `start_offset` on.
pub fn plan_energy_slices_contiguous<L: Fn(usize, usize) -> u32>(
    meter: &L,
    start_offset: usize,
    sample_count: usize,
    sample_rate_hz: u32,
    options: &LongFormOptions,
) -> (planned: Vec<AudioSlice>)
    requires
        energy::meters(*meter, sample_count as int),
        options.has_ceiling(sample_rate_hz),
        energy_windows_advance(*options, options.ceiling(sample_rate_hz)),
    ensures
        planned@ == energy_slices(
            Seq::empty(),
            energy::levels_of(*meter),
            sample_count as int,
            min(start_offset as int, sample_count as int),
            sample_count as int,
            *options,
            options.ceiling(sample_rate_hz),
        ),
{
    let mut planned: Vec<AudioSlice> = Vec::new();
    extend_energy_slices_for_span(
        &mut planned,
        meter,
        sample_count,
        start_offset,
        start_offset.saturating_add(sample_count),
        sample_rate_hz,
        options,
    );
    planned
}

// ---------------------------------------------------------------------------
// Windows over one region of speech
// ---------------------------------------------------------------------------

/// End of the voice-activity window at `start`, and the overlap that follows it.
pub open spec fn vad_step(
    levels: spec_fn(int, int) -> u32,
    sample_count: int,
    start: int,
    span_end: int,
    options: LongFormOptions,
    ceiling: int,
) -> (int, int) {
    let chunk = max(options.chunk_samples as int, 1);
    let hard_end = min(start + ceiling, span_end);
    let desired = min(start + chunk, span_end);
    let widened = energy::forced_overlap(
        options.overlap_samples as int,
        options.one_second_samples as int,
        options.two_second_samples as int,
        chunk,
    );
    if desired >= span_end {
        (slices::window_end(start, desired, span_end, ceiling), widened)
    } else {
        let cut = energy::forced_cut(
            levels,
            sample_count,
            desired,
            hard_end,
            min(start + options.min_chunk_samples, hard_end),
            options.search_samples as int,
            options.silence_level,
        );
        (
            cut.0,
            if cut.1 {
                widened
            } else {
                options.overlap_samples as int
            },
        )
    }
}

/// The voice-activity windows from `start` on, behind those already built.
pub open spec fn vad_slices(
    built: Seq<AudioSlice>,
    levels: spec_fn(int, int) -> u32,
    sample_count: int,
    start: int,
    span_end: int,
    options: LongFormOptions,
    ceiling: int,
) -> Seq<AudioSlice>
    decreases span_end - start,
{
    let step = vad_step(levels, sample_count, start, span_end, options, ceiling);
    if start >= span_end || step.0 <= start {
        built
    } else {
        let pushed = built.push(
            slices::plain_slice(built.len() as int, AudioSliceKind::Vad, start, step.0),
        );
        if step.0 >= span_end {
            pushed
        } else {
            vad_slices(
                pushed,
                levels,
                sample_count,
                slices::next_start(start, step.0, step.1),
                span_end,
                options,
                ceiling,
            )
        }
    }
}

/// Settings under which every voice-activity window holds at least one sample.
pub open spec fn vad_windows_advance(options: LongFormOptions, ceiling: int) -> bool {
    &&& ceiling >= 1
    &&& options.min_chunk_samples >= 1 || ceiling >= 2 || options.search_samples == 0
}

proof fn lemma_vad_step(
    levels: spec_fn(int, int) -> u32,
    sample_count: int,
    start: int,
    span_end: int,
    options: LongFormOptions,
    ceiling: int,
)
    requires
        0 <= start < span_end <= sample_count,
        vad_windows_advance(options, ceiling),
    ensures
        ({
            let step = vad_step(levels, sample_count, start, span_end, options, ceiling);
            start < step.0 <= span_end && step.0 - start <= ceiling && step.1 >= 0
        }),
{
    reveal(energy::forced_cut);
    let chunk = max(options.chunk_samples as int, 1);
    let hard_end = min(start + ceiling, span_end);
    let desired = min(start + chunk, span_end);
    let floor = min(start + options.min_chunk_samples, hard_end);
    let search = options.search_samples as int;
    let lo = max(max(0, desired - search), floor);
    let hi = min(desired + search, hard_end);
    let ceiling_lo = max(max(0, hard_end - search), floor);
    let threshold = options.silence_level;
    energy::law_splits_lie_in_the_searched_range(levels, sample_count, lo, hi, threshold);
    energy::law_splits_lie_in_the_searched_range(levels, sample_count, hi, hard_end, threshold);
    energy::law_splits_lie_in_the_searched_range(
        levels,
        sample_count,
        ceiling_lo,
        hard_end,
        threshold,
    );
    energy::lemma_split_of_a_wide_range(levels, sample_count, lo, hi);
    energy::lemma_split_of_a_wide_range(levels, sample_count, ceiling_lo, hard_end);
}

/// Cuts one region of speech into windows at silence-aware boundaries, and appends
/// them.
///
/// A region longer than `chunk_samples` is split at the quietest frame near the
/// target, and may grow toward a pause, but never beyond the ceiling. Where no pause
/// exists up to the ceiling the cut is forced through voiced speech and the overlap
/// into the next slice is widened.
pub fn extend_vad_slices_for_span<L: Fn(usize, usize) -> u32>(
    planned: &mut Vec<AudioSlice>,
    meter: &L,
    sample_count: usize,
    span_start: usize,
    span_end: usize,
    sample_rate_hz: u32,
    options: &LongFormOptions,
)
    requires
        energy::meters(*meter, sample_count as int),
        span_end <= sample_count,
        options.has_ceiling(sample_rate_hz),
        vad_windows_advance(*options, options.ceiling(sample_rate_hz)),
    ensures
        final(planned)@ == vad_slices(
            old(planned)@,
            energy::levels_of(*meter),
            sample_count as int,
            span_start as int,
            span_end as int,
            *options,
            options.ceiling(sample_rate_hz),
        ),
{
    let chunk_samples: usize = larger(options.chunk_samples, 1);
    let max_chunk_samples: usize = options.max_chunk_samples(sample_rate_hz);
    let forced_overlap_samples: usize = forced_cut_overlap_samples(
        options.overlap_samples,
        options.one_second_samples,
        options.two_second_samples,
        chunk_samples,
    );
    let ghost levels = energy::levels_of(*meter);
    let ghost whole = vad_slices(
        planned@,
        levels,
        sample_count as int,
        span_start as int,
        span_end as int,
        *options,
        max_chunk_samples as int,
    );
    let mut start: usize = span_start;
    while start < span_end
        invariant
            span_end <= sample_count,
            energy::meters(*meter, sample_count as int),
            levels == energy::levels_of(*meter),
            vad_windows_advance(*options, max_chunk_samples as int),
            chunk_samples == max(options.chunk_samples as int, 1),
            forced_overlap_samples == energy::forced_overlap(
                options.overlap_samples as int,
                options.one_second_samples as int,
                options.two_second_samples as int,
                chunk_samples as int,
            ),
            whole == vad_slices(
                planned@,
                levels,
                sample_count as int,
                start as int,
                span_end as int,
                *options,
                max_chunk_samples as int,
            ),
            whole == vad_slices(
                old(planned)@,
                levels,
                sample_count as int,
                span_start as int,
                span_end as int,
                *options,
                options.ceiling(sample_rate_hz),
            ),
        decreases span_end - start,
    {
        let hard_end: usize = smaller(start.saturating_add(max_chunk_samples), span_end);
        let desired: usize = smaller(start.saturating_add(chunk_samples), span_end);
        let step: (usize, usize) = if desired >= span_end {
            (
                executor_window_end(start, desired, span_end, max_chunk_samples),
                forced_overlap_samples,
            )
        } else {
            let floor: usize = smaller(start.saturating_add(options.min_chunk_samples), hard_end);
            let cut: (usize, bool) = choose_forced_cut(
                meter,
                sample_count,
                desired,
                hard_end,
                floor,
                options.search_samples,
                options.silence_level,
            );
            (
                cut.0,
                if cut.1 {
                    forced_overlap_samples
                } else {
                    options.overlap_samples
                },
            )
        };
        proof {
            lemma_vad_step(
                levels,
                sample_count as int,
                start as int,
                span_end as int,
                *options,
                max_chunk_samples as int,
            );
        }
        let index: usize = planned.len();
        planned.push(vad_slice(index, start, step.0));
        if step.0 >= span_end {
            return;
        }
        start = advance_window_start(start, step.0, step.1);
    }
}

/// The windows over one region of speech cover it without a gap, and none crosses the
/// executor ceiling.
pub proof fn law_vad_slices_cover_the_region(
    built: Seq<AudioSlice>,
    levels: spec_fn(int, int) -> u32,
    sample_count: int,
    start: int,
    span_end: int,
    options: LongFormOptions,
    ceiling: int,
)
    requires
        0 <= start < span_end <= sample_count <= usize::MAX,
        vad_windows_advance(options, ceiling),
    ensures
        extends_over(
            built,
            vad_slices(built, levels, sample_count, start, span_end, options, ceiling),
            AudioSliceKind::Vad,
            start,
            span_end,
            ceiling,
        ),
    decreases span_end - start,
{
    lemma_vad_step(levels, sample_count, start, span_end, options, ceiling);
    let step = vad_step(levels, sample_count, start, span_end, options, ceiling);
    let slice = slices::plain_slice(built.len() as int, AudioSliceKind::Vad, start, step.0);
    let pushed = built.push(slice);
    let after = vad_slices(built, levels, sample_count, start, span_end, options, ceiling);
    if step.0 < span_end {
        let next = slices::next_start(start, step.0, step.1);
        law_vad_slices_cover_the_region(
            pushed,
            levels,
            sample_count,
            next,
            span_end,
            options,
            ceiling,
        );
        lemma_extension_step(built, slice, after, AudioSliceKind::Vad, next, span_end, ceiling);
    }
}

/// Every window over a region of speech ends with the region, or at the ceiling, where a
/// chunk reaches its end, and else where a region that overruns one chunk is cut: searched
/// round a chunk behind its own start, no nearer to it than the least chunk, no further than
/// ceiling and region. Behind a cut at a pause the next window starts the configured overlap
/// before the cut, and behind every other end the widened one.
pub proof fn law_vad_windows_end_at_pauses(
    built: Seq<AudioSlice>,
    levels: spec_fn(int, int) -> u32,
    sample_count: int,
    start: int,
    span_end: int,
    options: LongFormOptions,
    ceiling: int,
)
    requires
        0 <= start < span_end <= sample_count <= usize::MAX,
        vad_windows_advance(options, ceiling),
    ensures
        ({
            let planned = vad_slices(
                built,
                levels,
                sample_count,
                start,
                span_end,
                options,
                ceiling,
            );
            &&& built.len() < planned.len()
            &&& planned[built.len() as int].content_start_sample == start
            &&& forall|i: int| 0 <= i < built.len() ==> #[trigger] planned[i] == built[i]
            &&& forall|i: int|
                built.len() <= i < planned.len() ==> ends_at_a_pause(
                    levels,
                    sample_count,
                    (#[trigger] planned[i]).content_start_sample as int,
                    planned[i].content_end_sample as int,
                    span_end,
                    options,
                    ceiling,
                )
            &&& forall|i: int, j: int|
                #![trigger planned[i], planned[j]]
                built.len() <= i && i + 1 == j && j < planned.len() ==> follows(
                    planned[i].content_start_sample as int,
                    planned[i].content_end_sample as int,
                    overlap_behind(
                        levels,
                        sample_count,
                        planned[i].content_start_sample as int,
                        span_end,
                        options,
                        ceiling,
                    ),
                    planned[j].content_start_sample as int,
                )
        }),
    decreases span_end - start,
{
    lemma_vad_step(levels, sample_count, start, span_end, options, ceiling);
    let step = vad_step(levels, sample_count, start, span_end, options, ceiling);
    let slice = slices::plain_slice(built.len() as int, AudioSliceKind::Vad, start, step.0);
    let pushed = built.push(slice);
    let planned = vad_slices(built, levels, sample_count, start, span_end, options, ceiling);
    assert(ends_at_a_pause(levels, sample_count, start, step.0, span_end, options, ceiling));
    if step.0 < span_end {
        let next = slices::next_start(start, step.0, step.1);
        law_vad_windows_end_at_pauses(
            pushed,
            levels,
            sample_count,
            next,
            span_end,
            options,
            ceiling,
        );
        assert(planned[built.len() as int] == pushed[built.len() as int]);
        assert forall|i: int| 0 <= i < built.len() implies #[trigger] planned[i] == built[i] by {
            assert(planned[i] == pushed[i]);
        }
    }
}

/// Whether a window over `[start, end)` of a region up to `span_end` ends where it should.
pub open spec fn ends_at_a_pause(
    levels: spec_fn(int, int) -> u32,
    sample_count: int,
    start: int,
    end: int,
    span_end: int,
    options: LongFormOptions,
    ceiling: int,
) -> bool {
    let desired = start + max(options.chunk_samples as int, 1);
    let most = min(start + ceiling, span_end);
    if desired >= span_end {
        end == most
    } else {
        end == energy::forced_cut(
            levels,
            sample_count,
            desired,
            most,
            min(start + options.min_chunk_samples, most),
            options.search_samples as int,
            options.silence_level,
        ).0
    }
}

/// The overlap behind the window that starts at `start`: the configured one behind a cut
/// that is not forced, the widened one behind every other end.
pub open spec fn overlap_behind(
    levels: spec_fn(int, int) -> u32,
    sample_count: int,
    start: int,
    span_end: int,
    options: LongFormOptions,
    ceiling: int,
) -> int {
    let chunk = max(options.chunk_samples as int, 1);
    let most = min(start + ceiling, span_end);
    let at_a_pause = start + chunk < span_end && !energy::forced_cut(
        levels,
        sample_count,
        start + chunk,
        most,
        min(start + options.min_chunk_samples, most),
        options.search_samples as int,
        options.silence_level,
    ).1;
    if at_a_pause {
        options.overlap_samples as int
    } else {
        energy::forced_overlap(
            options.overlap_samples as int,
            options.one_second_samples as int,
            options.two_second_samples as int,
            chunk,
        )
    }
}

/// The slice, of those that cover a stretch, that holds a given sample of it.
pub proof fn lemma_covering_slice(
    before: Seq<AudioSlice>,
    after: Seq<AudioSlice>,
    kind: AudioSliceKind,
    from: int,
    to: int,
    ceiling: int,
    at: int,
) -> (i: int)
    requires
        extends_over(before, after, kind, from, to, ceiling),
        from <= at < to,
    ensures
        before.len() <= i < after.len(),
        after[i].content_start_sample <= at < after[i].content_end_sample,
{
    lemma_covering_slice_up_to(before, after, kind, from, to, ceiling, at, after.len() - 1)
}

proof fn lemma_covering_slice_up_to(
    before: Seq<AudioSlice>,
    after: Seq<AudioSlice>,
    kind: AudioSliceKind,
    from: int,
    to: int,
    ceiling: int,
    at: int,
    last: int,
) -> (i: int)
    requires
        extends_over(before, after, kind, from, to, ceiling),
        before.len() <= last < after.len(),
        from <= at < after[last].content_end_sample,
    ensures
        before.len() <= i < after.len(),
        after[i].content_start_sample <= at < after[i].content_end_sample,
    decreases last,
{
    if after[last].content_start_sample <= at {
        last
    } else {
        assert(after[last - 1].content_end_sample >= after[last].content_start_sample);
        lemma_covering_slice_up_to(before, after, kind, from, to, ceiling, at, last - 1)
    }
}

/// Nothing is cut where there is nothing: a stretch that is empty adds no window, of whatever
/// kind, and chunks without a sample make no fixed windows.
pub proof fn law_empty_stretches_have_no_windows(
    built: Seq<AudioSlice>,
    levels: spec_fn(int, int) -> u32,
    sample_count: int,
    start: int,
    end: int,
    options: LongFormOptions,
    ceiling: int,
)
    ensures
        start >= end ==> fixed_slices(built, start, end, options, ceiling) == built,
        start >= end ==> energy_slices(
            built,
            levels,
            sample_count,
            start,
            end,
            options,
            ceiling,
        ) == built,
        start >= end ==> vad_slices(built, levels, sample_count, start, end, options, ceiling)
            == built,
        options.chunk_samples == 0 ==> fixed_slices(built, start, end, options, ceiling) == built,
{
}

/// A fixed window is fed as it was laid, a chunk from its start on or what there is of it; a last
/// one that took in the rest is not fed more for that before it is padded.
pub proof fn law_fixed_windows_are_fed_as_laid(
    built: Seq<AudioSlice>,
    start: int,
    total: int,
    options: LongFormOptions,
    ceiling: int,
)
    requires
        0 <= start <= total <= usize::MAX,
        ceiling >= 0,
        forall|i: int|
            0 <= i < built.len() ==> (#[trigger] built[i]).start_sample
                == built[i].content_start_sample && built[i].end_sample == min(
                built[i].content_start_sample + min(options.chunk_samples as int, ceiling),
                total,
            ),
    ensures
        ({
            let planned = fixed_slices(built, start, total, options, ceiling);
            forall|i: int|
                0 <= i < planned.len() ==> (#[trigger] planned[i]).start_sample
                    == planned[i].content_start_sample && planned[i].end_sample == min(
                    planned[i].content_start_sample + min(options.chunk_samples as int, ceiling),
                    total,
                )
        }),
    decreases total - start,
{
    let end = fixed_end(start, total, options, ceiling);
    let planned = fixed_slices(built, start, total, options, ceiling);
    if start < total && end > start {
        if is_mergeable_tail(built, start, end, total, options, ceiling) {
            assert forall|i: int| 0 <= i < planned.len() implies (
            #[trigger] planned[i]).start_sample == planned[i].content_start_sample
                && planned[i].end_sample == min(
                planned[i].content_start_sample + min(options.chunk_samples as int, ceiling),
                total,
            ) by {
                assert(built[i].start_sample == built[i].content_start_sample);
            }
        } else {
            let pushed = built.push(
                slices::plain_slice(built.len() as int, AudioSliceKind::Fixed, start, end),
            );
            if end < total {
                law_fixed_windows_are_fed_as_laid(
                    pushed,
                    slices::next_start(start, end, options.overlap_samples as int),
                    total,
                    options,
                    ceiling,
                );
            }
        }
    }
}

/// Windows over speech are fed exactly their content before they are padded.
pub proof fn law_vad_windows_are_fed_as_laid(
    built: Seq<AudioSlice>,
    levels: spec_fn(int, int) -> u32,
    sample_count: int,
    start: int,
    span_end: int,
    options: LongFormOptions,
    ceiling: int,
)
    requires
        forall|i: int|
            0 <= i < built.len() ==> (#[trigger] built[i]).start_sample
                == built[i].content_start_sample && built[i].end_sample
                == built[i].content_end_sample,
    ensures
        ({
            let planned = vad_slices(
                built,
                levels,
                sample_count,
                start,
                span_end,
                options,
                ceiling,
            );
            forall|i: int|
                0 <= i < planned.len() ==> (#[trigger] planned[i]).start_sample
                    == planned[i].content_start_sample && planned[i].end_sample
                    == planned[i].content_end_sample
        }),
    decreases span_end - start,
{
    let step = vad_step(levels, sample_count, start, span_end, options, ceiling);
    if start < span_end && step.0 > start {
        let pushed = built.push(
            slices::plain_slice(built.len() as int, AudioSliceKind::Vad, start, step.0),
        );
        if step.0 < span_end {
            law_vad_windows_are_fed_as_laid(
                pushed,
                levels,
                sample_count,
                slices::next_start(start, step.0, step.1),
                span_end,
                options,
                ceiling,
            );
        }
    }
}

} // verus!
