//! Where to cut a recording: the search for quiet frames.
//!
//! The loudness of a range of samples enters as a *level*: the bit pattern of its
//! root mean square as a single-precision number. A root mean square is never
//! negative, so the bit patterns order as the numbers do, and every pattern of a
//! not-a-number lies above infinity.

use vstd::math::*;
use vstd::prelude::*;

use crate::longform::slices::{larger, smaller};

verus! {

/// Level of positive infinity.
pub const INFINITE_LEVEL: u32 = 0x7f80_0000;

/// Samples per frame of the search.
pub const FRAME_SAMPLES: usize = 1600;

/// The level that a meter reports for each range.
pub open spec fn levels_of<L: Fn(usize, usize) -> u32>(meter: L) -> spec_fn(int, int) -> u32 {
    |start: int, end: int| reported_level(meter, start as usize, end as usize)
}

/// The level that a meter reports for one range.
pub open spec fn reported_level<L: Fn(usize, usize) -> u32>(
    meter: L,
    start: usize,
    end: usize,
) -> u32 {
    choose|level: u32| #[trigger] call_ensures(meter, (start, end), level)
}

/// Whether a meter answers for every non-empty range of a recording, and always the
/// same for the same range.
pub open spec fn meters<L: Fn(usize, usize) -> u32>(meter: L, sample_count: int) -> bool {
    &&& forall|start: usize, end: usize|
        start < end <= sample_count ==> #[trigger] call_requires(meter, (start, end))
    &&& forall|start: usize, end: usize, a: u32, b: u32|
        #[trigger] call_ensures(meter, (start, end), a) && #[trigger] call_ensures(
            meter,
            (start, end),
            b,
        ) ==> a == b
}

/// Whether a level is at or below a threshold, as numbers: nothing is at or below a
/// threshold that is not a number.
pub open spec fn is_quiet(level: u32, threshold: u32) -> bool {
    level <= threshold <= INFINITE_LEVEL
}

/// Number of frames that `[start, stop)` is read in.
pub open spec fn frame_count(start: int, stop: int) -> int {
    if start < stop {
        (stop - start + FRAME_SAMPLES - 1) / FRAME_SAMPLES as int
    } else {
        0
    }
}

pub open spec fn frame_start(start: int, k: int) -> int {
    start + FRAME_SAMPLES * k
}

pub open spec fn frame_end(start: int, stop: int, k: int) -> int {
    min(start + FRAME_SAMPLES * (k + 1), stop)
}

pub open spec fn frame_middle(start: int, stop: int, k: int) -> int {
    frame_start(start, k) + (frame_end(start, stop, k) - frame_start(start, k)) / 2
}

pub open spec fn frame_level(
    levels: spec_fn(int, int) -> u32,
    start: int,
    stop: int,
    k: int,
) -> u32 {
    levels(frame_start(start, k), frame_end(start, stop, k))
}

/// Whether frame `k` is the earliest of the quietest frames with a finite level.
pub open spec fn is_quietest(
    levels: spec_fn(int, int) -> u32,
    start: int,
    stop: int,
    k: int,
) -> bool {
    &&& 0 <= k < frame_count(start, stop)
    &&& frame_level(levels, start, stop, k) < INFINITE_LEVEL
    &&& forall|j: int|
        0 <= j < frame_count(start, stop) ==> frame_level(levels, start, stop, k)
            <= #[trigger] frame_level(levels, start, stop, j)
    &&& forall|j: int|
        0 <= j < k ==> frame_level(levels, start, stop, k) < #[trigger] frame_level(
            levels,
            start,
            stop,
            j,
        )
}

/// Whether frame `k` is the first at or below the threshold.
pub open spec fn is_first_quiet(
    levels: spec_fn(int, int) -> u32,
    start: int,
    stop: int,
    threshold: u32,
    k: int,
) -> bool {
    &&& 0 <= k < frame_count(start, stop)
    &&& is_quiet(frame_level(levels, start, stop, k), threshold)
    &&& forall|j: int|
        0 <= j < k ==> !is_quiet(#[trigger] frame_level(levels, start, stop, j), threshold)
}

/// Middle and level of the earliest quietest frame of `[start, end)`, read as far as
/// the recording goes.
pub open spec fn quietest_split(
    levels: spec_fn(int, int) -> u32,
    sample_count: int,
    start: int,
    end: int,
) -> Option<(int, u32)> {
    let stop = min(end, sample_count);
    if exists|k: int| is_quietest(levels, start, stop, k) {
        let k = choose|k: int| is_quietest(levels, start, stop, k);
        Some((frame_middle(start, stop, k), frame_level(levels, start, stop, k)))
    } else {
        None
    }
}

/// Middle of the first frame of `[start, end)` at or below the threshold.
pub open spec fn first_quiet_split(
    levels: spec_fn(int, int) -> u32,
    sample_count: int,
    start: int,
    end: int,
    threshold: u32,
) -> Option<int> {
    let stop = min(end, sample_count);
    if exists|k: int| is_first_quiet(levels, start, stop, threshold, k) {
        let k = choose|k: int| is_first_quiet(levels, start, stop, threshold, k);
        Some(frame_middle(start, stop, k))
    } else {
        None
    }
}

/// A split lies inside the range that was searched.
pub proof fn law_splits_lie_in_the_searched_range(
    levels: spec_fn(int, int) -> u32,
    sample_count: int,
    start: int,
    end: int,
    threshold: u32,
)
    ensures
        quietest_split(levels, sample_count, start, end) matches Some(found) ==> start <= found.0
            < min(end, sample_count),
        first_quiet_split(levels, sample_count, start, end, threshold) matches Some(split) ==> start
            <= split < min(end, sample_count),
{
    let stop = min(end, sample_count);
    if exists|k: int| is_quietest(levels, start, stop, k) {
        let k = choose|k: int| is_quietest(levels, start, stop, k);
        lemma_frame_is_inside(start, stop, k);
    }
    if exists|k: int| is_first_quiet(levels, start, stop, threshold, k) {
        let k = choose|k: int| is_first_quiet(levels, start, stop, threshold, k);
        lemma_frame_is_inside(start, stop, k);
    }
}

proof fn lemma_frame_is_inside(start: int, stop: int, k: int)
    requires
        0 <= k < frame_count(start, stop),
    ensures
        start <= frame_start(start, k) < frame_end(start, stop, k) <= stop,
        frame_start(start, k) <= frame_middle(start, stop, k) < frame_end(start, stop, k),
{
}

/// A split of two samples or more never falls on the first of them.
pub proof fn lemma_split_of_a_wide_range(
    levels: spec_fn(int, int) -> u32,
    sample_count: int,
    start: int,
    end: int,
)
    ensures
        start + 2 <= min(end, sample_count) ==> (quietest_split(
            levels,
            sample_count,
            start,
            end,
        ) matches Some(found) ==> start < found.0),
{
    let stop = min(end, sample_count);
    if exists|k: int| is_quietest(levels, start, stop, k) {
        let k = choose|k: int| is_quietest(levels, start, stop, k);
        lemma_frame_is_inside(start, stop, k);
    }
}

/// Nothing is found in an empty range.
pub proof fn lemma_no_split_of_an_empty_range(
    levels: spec_fn(int, int) -> u32,
    sample_count: int,
    start: int,
    end: int,
)
    ensures
        start >= min(end, sample_count) ==> quietest_split(levels, sample_count, start, end)
            is None,
{
}

/// Lowest-energy frame midpoint in `[start, end)` together with its level, so that a
/// caller can tell a genuine pause from a cut forced through voiced speech.
pub fn lowest_energy_split_with_rms<L: Fn(usize, usize) -> u32>(
    meter: &L,
    sample_count: usize,
    start: usize,
    end: usize,
) -> (best: Option<(usize, u32)>)
    requires
        meters(*meter, sample_count as int),
    ensures
        match best {
            Some(found) => quietest_split(
                levels_of(*meter),
                sample_count as int,
                start as int,
                end as int,
            ) == Some((found.0 as int, found.1)),
            None => quietest_split(
                levels_of(*meter),
                sample_count as int,
                start as int,
                end as int,
            ) is None,
        },
{
    let stop: usize = smaller(end, sample_count);
    let ghost levels = levels_of(*meter);
    let ghost s = start as int;
    let ghost e = stop as int;
    let mut best: Option<(usize, u32)> = None;
    let mut best_level: u32 = INFINITE_LEVEL;
    let mut index: usize = start;
    let ghost mut k: int = 0;
    let ghost mut best_k: int = -1;
    while index < stop
        invariant
            meters(*meter, sample_count as int),
            levels == levels_of(*meter),
            stop <= sample_count,
            s == start,
            e == stop,
            0 <= k <= frame_count(s, e),
            start < stop ==> index == min(s + FRAME_SAMPLES * k, e),
            start >= stop ==> index == start && k == 0,
            best_level <= INFINITE_LEVEL,
            forall|j: int| 0 <= j < k ==> best_level <= #[trigger] frame_level(levels, s, e, j),
            match best {
                None => best_level == INFINITE_LEVEL && best_k == -1,
                Some(found) => {
                    &&& 0 <= best_k < k
                    &&& found.0 == frame_middle(s, e, best_k)
                    &&& found.1 == best_level
                    &&& best_level == frame_level(levels, s, e, best_k)
                    &&& best_level < INFINITE_LEVEL
                    &&& forall|j: int|
                        0 <= j < best_k ==> best_level < #[trigger] frame_level(levels, s, e, j)
                },
            },
        decreases stop - index,
    {
        let right: usize = smaller(index.saturating_add(FRAME_SAMPLES), stop);
        let level: u32 = meter(index, right);
        assert(level == frame_level(levels, s, e, k));
        if level < best_level {
            best_level = level;
            best = Some((index + (right - index) / 2, level));
            proof {
                best_k = k;
            }
        }
        index = right;
        proof {
            k = k + 1;
        }
    }
    proof {
        assert(k == frame_count(s, e));
        if best is Some {
            assert(is_quietest(levels, s, e, best_k));
            let other = choose|j: int| is_quietest(levels, s, e, j);
            assert(is_quietest(levels, s, e, other));
            assert(other == best_k) by {
                if other < best_k {
                    assert(frame_level(levels, s, e, best_k) < frame_level(levels, s, e, other));
                } else if best_k < other {
                    assert(frame_level(levels, s, e, other) < frame_level(levels, s, e, best_k));
                }
            }
        } else {
            assert forall|j: int| !is_quietest(levels, s, e, j) by {
                if is_quietest(levels, s, e, j) {
                    assert(best_level <= frame_level(levels, s, e, j));
                }
            }
        }
    }
    best
}

/// Lowest-energy frame midpoint in `[start, end)`.
pub fn find_lowest_energy_split<L: Fn(usize, usize) -> u32>(
    meter: &L,
    sample_count: usize,
    start: usize,
    end: usize,
) -> (split: Option<usize>)
    requires
        meters(*meter, sample_count as int),
    ensures
        match split {
            Some(at) => quietest_split(
                levels_of(*meter),
                sample_count as int,
                start as int,
                end as int,
            ) matches Some(found) && found.0 == at,
            None => quietest_split(
                levels_of(*meter),
                sample_count as int,
                start as int,
                end as int,
            ) is None,
        },
{
    match lowest_energy_split_with_rms(meter, sample_count, start, end) {
        Some(found) => Some(found.0),
        None => None,
    }
}

/// Midpoint of the first frame in `[start, end)` at or below the silence threshold:
/// the nearest natural pause, rather than the globally quietest, possibly distant
/// frame.
pub fn first_low_energy_split<L: Fn(usize, usize) -> u32>(
    meter: &L,
    sample_count: usize,
    start: usize,
    end: usize,
    silence_threshold: u32,
) -> (split: Option<usize>)
    requires
        meters(*meter, sample_count as int),
    ensures
        match split {
            Some(at) => first_quiet_split(
                levels_of(*meter),
                sample_count as int,
                start as int,
                end as int,
                silence_threshold,
            ) == Some(at as int),
            None => first_quiet_split(
                levels_of(*meter),
                sample_count as int,
                start as int,
                end as int,
                silence_threshold,
            ) is None,
        },
{
    let stop: usize = smaller(end, sample_count);
    let ghost levels = levels_of(*meter);
    let ghost s = start as int;
    let ghost e = stop as int;
    let mut index: usize = start;
    let ghost mut k: int = 0;
    while index < stop
        invariant
            meters(*meter, sample_count as int),
            levels == levels_of(*meter),
            stop == min(end as int, sample_count as int),
            s == start,
            e == stop,
            0 <= k <= frame_count(s, e),
            start < stop ==> index == min(s + FRAME_SAMPLES * k, e),
            start >= stop ==> index == start && k == 0,
            forall|j: int|
                0 <= j < k ==> !is_quiet(#[trigger] frame_level(levels, s, e, j), silence_threshold),
        decreases stop - index,
    {
        let right: usize = smaller(index.saturating_add(FRAME_SAMPLES), stop);
        let level: u32 = meter(index, right);
        assert(level == frame_level(levels, s, e, k));
        if level <= silence_threshold && silence_threshold <= INFINITE_LEVEL {
            proof {
                assert(is_first_quiet(levels, s, e, silence_threshold, k));
                let other = choose|j: int| is_first_quiet(levels, s, e, silence_threshold, j);
                assert(is_first_quiet(levels, s, e, silence_threshold, other));
                assert(other == k) by {
                    if k < other {
                        assert(!is_quiet(frame_level(levels, s, e, k), silence_threshold));
                    }
                }
            }
            return Some(index + (right - index) / 2);
        }
        index = right;
        proof {
            k = k + 1;
        }
    }
    proof {
        assert forall|j: int| !is_first_quiet(levels, s, e, silence_threshold, j) by {
            if is_first_quiet(levels, s, e, silence_threshold, j) {
                assert(!is_quiet(frame_level(levels, s, e, j), silence_threshold));
            }
        }
    }
    None
}

/// A value held between `floor` and `hard_end`, the upper bound winning.
pub open spec fn held(value: int, floor: int, hard_end: int) -> int {
    min(max(value, floor), hard_end)
}

/// The cut for a region that overruns one chunk, and whether it is forced through
/// voiced speech: the quietest genuine pause near the target; else the nearest pause
/// on the way to the ceiling; else the quietest frame at the ceiling.
#[verifier::opaque]
pub open spec fn forced_cut(
    levels: spec_fn(int, int) -> u32,
    sample_count: int,
    desired: int,
    hard_end: int,
    floor: int,
    search: int,
    threshold: u32,
) -> (int, bool) {
    let window_lo = max(max(0, desired - search), floor);
    let window_hi = min(desired + search, hard_end);
    let near = quietest_split(levels, sample_count, window_lo, window_hi);
    let later = first_quiet_split(levels, sample_count, window_hi, hard_end, threshold);
    let ceiling_lo = max(max(0, hard_end - search), floor);
    if near matches Some(found) && is_quiet(found.1, threshold) {
        (held(near->Some_0.0, floor, hard_end), false)
    } else if window_hi < hard_end && later is Some {
        (held(later->Some_0, floor, hard_end), false)
    } else {
        match quietest_split(levels, sample_count, ceiling_lo, hard_end) {
            Some(found) => (held(found.0, floor, hard_end), true),
            None => (held(hard_end, floor, hard_end), true),
        }
    }
}

fn hold(value: usize, floor: usize, hard_end: usize) -> (r: usize)
    ensures
        r == held(value as int, floor as int, hard_end as int),
{
    smaller(larger(value, floor), hard_end)
}

/// Chooses a silence-aware split for a speech region that overruns one chunk, and
/// says whether the cut was forced through voiced speech.
pub fn choose_forced_cut<L: Fn(usize, usize) -> u32>(
    meter: &L,
    sample_count: usize,
    desired: usize,
    hard_end: usize,
    floor: usize,
    search_samples: usize,
    silence_threshold: u32,
) -> (cut: (usize, bool))
    requires
        meters(*meter, sample_count as int),
    ensures
        (cut.0 as int, cut.1) == forced_cut(
            levels_of(*meter),
            sample_count as int,
            desired as int,
            hard_end as int,
            floor as int,
            search_samples as int,
            silence_threshold,
        ),
{
    reveal(forced_cut);
    let window_lo: usize = larger(desired.saturating_sub(search_samples), floor);
    let window_hi: usize = smaller(desired.saturating_add(search_samples), hard_end);
    if let Some(found) = lowest_energy_split_with_rms(meter, sample_count, window_lo, window_hi) {
        if found.1 <= silence_threshold && silence_threshold <= INFINITE_LEVEL {
            return (hold(found.0, floor, hard_end), false);
        }
    }
    if window_hi < hard_end {
        if let Some(split) = first_low_energy_split(
            meter,
            sample_count,
            window_hi,
            hard_end,
            silence_threshold,
        ) {
            return (hold(split, floor, hard_end), false);
        }
    }
    let ceiling_lo: usize = larger(hard_end.saturating_sub(search_samples), floor);
    match find_lowest_energy_split(meter, sample_count, ceiling_lo, hard_end) {
        Some(split) => (hold(split, floor, hard_end), true),
        None => (hold(hard_end, floor, hard_end), true),
    }
}

/// A forced cut never crosses the ceiling, and stays at or above the floor wherever
/// the floor is legal.
pub proof fn law_forced_cut_is_legal(
    levels: spec_fn(int, int) -> u32,
    sample_count: int,
    desired: int,
    hard_end: int,
    floor: int,
    search: int,
    threshold: u32,
)
    ensures
        ({
            let cut = forced_cut(
                levels,
                sample_count,
                desired,
                hard_end,
                floor,
                search,
                threshold,
            );
            &&& cut.0 <= hard_end
            &&& floor <= hard_end ==> floor <= cut.0
        }),
{
    reveal(forced_cut);
}

/// Frames read a range in order and without a gap: each starts where the one before it
/// ends and holds 1600 samples, the last one what is left. The level of a frame is that of
/// its range, and its middle lies half its length behind its start.
pub proof fn law_frames_tile_the_range(
    levels: spec_fn(int, int) -> u32,
    start: int,
    stop: int,
    k: int,
)
    ensures
        start >= stop ==> frame_count(start, stop) == 0,
        start < stop ==> frame_count(start, stop) > 0 && frame_start(start, 0) == start
            && frame_end(start, stop, frame_count(start, stop) - 1) == stop,
        0 <= k < frame_count(start, stop) ==> {
            let from = frame_start(start, k);
            let to = frame_end(start, stop, k);
            &&& from == start + 1600 * k
            &&& k + 1 < frame_count(start, stop) ==> to == from + 1600 && to == frame_start(
                start,
                k + 1,
            )
            &&& 1 <= to - from <= 1600
            &&& frame_middle(start, stop, k) == from + (to - from) / 2
            &&& frame_level(levels, start, stop, k) == levels(from, to)
        },
{
}

/// Whether some frame of a range has a finite level.
pub open spec fn some_frame_is_finite(
    levels: spec_fn(int, int) -> u32,
    start: int,
    stop: int,
) -> bool {
    exists|j: int|
        0 <= j < frame_count(start, stop) && #[trigger] frame_level(levels, start, stop, j)
            < 0x7f80_0000
}

/// Whether some frame of a range is at or below a level.
pub open spec fn some_frame_is_at_or_below(
    levels: spec_fn(int, int) -> u32,
    start: int,
    stop: int,
    level: u32,
) -> bool {
    exists|j: int|
        0 <= j < frame_count(start, stop) && #[trigger] frame_level(levels, start, stop, j)
            <= level
}

/// Whether `at` is the middle of a frame that no frame of the range is quieter than and
/// every earlier one is louder than.
pub open spec fn is_middle_of_the_quietest(
    levels: spec_fn(int, int) -> u32,
    start: int,
    stop: int,
    at: int,
) -> bool {
    exists|k: int|
        0 <= k < frame_count(start, stop) && #[trigger] frame_middle(start, stop, k) == at && (
        forall|j: int|
            0 <= j < frame_count(start, stop) ==> frame_level(levels, start, stop, k)
                <= #[trigger] frame_level(levels, start, stop, j)) && (forall|j: int|
            0 <= j < k ==> frame_level(levels, start, stop, k) < #[trigger] frame_level(
                levels,
                start,
                stop,
                j,
            ))
}

/// Whether `at` is the middle of a frame at or below a level that every earlier frame of
/// the range is above.
pub open spec fn is_middle_of_the_nearest(
    levels: spec_fn(int, int) -> u32,
    start: int,
    stop: int,
    level: u32,
    at: int,
) -> bool {
    exists|k: int|
        0 <= k < frame_count(start, stop) && #[trigger] frame_middle(start, stop, k) == at
            && frame_level(levels, start, stop, k) <= level && forall|j: int|
            0 <= j < k ==> #[trigger] frame_level(levels, start, stop, j) > level
}

/// The search for the quietest frame finds one wherever a frame of the range, as far as
/// the recording goes, has a finite level, and then the middle of the earliest of the
/// quietest with its level.
pub proof fn law_the_quietest_frame_is_found(
    levels: spec_fn(int, int) -> u32,
    sample_count: int,
    start: int,
    end: int,
)
    ensures
        ({
            let stop = min(end, sample_count);
            match quietest_split(levels, sample_count, start, end) {
                None => !some_frame_is_finite(levels, start, stop),
                Some(found) => {
                    &&& found.1 < INFINITE_LEVEL
                    &&& is_middle_of_the_quietest(levels, start, stop, found.0)
                    &&& some_frame_is_at_or_below(levels, start, stop, found.1)
                    &&& forall|j: int|
                        0 <= j < frame_count(start, stop) ==> found.1 <= #[trigger] frame_level(
                            levels,
                            start,
                            stop,
                            j,
                        )
                },
            }
        }),
{
    let stop = min(end, sample_count);
    if some_frame_is_finite(levels, start, stop) {
        let j = choose|j: int|
            0 <= j < frame_count(start, stop) && #[trigger] frame_level(levels, start, stop, j)
                < INFINITE_LEVEL;
        let k = lemma_earliest_quietest(levels, start, stop, frame_count(start, stop));
        assert(frame_level(levels, start, stop, k) <= frame_level(levels, start, stop, j));
        assert(is_quietest(levels, start, stop, k));
    }
    if exists|k: int| is_quietest(levels, start, stop, k) {
        let k = choose|k: int| is_quietest(levels, start, stop, k);
        assert(frame_middle(start, stop, k) == quietest_split(
            levels,
            sample_count,
            start,
            end,
        )->Some_0.0);
        assert(frame_level(levels, start, stop, k) < INFINITE_LEVEL);
    }
}

/// The earliest of the quietest of the first `count` frames.
proof fn lemma_earliest_quietest(
    levels: spec_fn(int, int) -> u32,
    start: int,
    stop: int,
    count: int,
) -> (k: int)
    requires
        0 < count,
    ensures
        0 <= k < count,
        forall|j: int|
            0 <= j < count ==> frame_level(levels, start, stop, k) <= #[trigger] frame_level(
                levels,
                start,
                stop,
                j,
            ),
        forall|j: int|
            0 <= j < k ==> frame_level(levels, start, stop, k) < #[trigger] frame_level(
                levels,
                start,
                stop,
                j,
            ),
    decreases count,
{
    if count == 1 {
        0
    } else {
        let before = lemma_earliest_quietest(levels, start, stop, count - 1);
        if frame_level(levels, start, stop, count - 1) < frame_level(levels, start, stop, before) {
            count - 1
        } else {
            before
        }
    }
}

/// The search for the nearest pause finds one wherever a frame of the range, as far as the
/// recording goes, is at or below the threshold, and then the middle of the first such
/// frame. A threshold that is not a number finds none.
pub proof fn law_the_nearest_pause_is_found(
    levels: spec_fn(int, int) -> u32,
    sample_count: int,
    start: int,
    end: int,
    threshold: u32,
)
    ensures
        ({
            let stop = min(end, sample_count);
            match first_quiet_split(levels, sample_count, start, end, threshold) {
                None => threshold > INFINITE_LEVEL || !some_frame_is_at_or_below(
                    levels,
                    start,
                    stop,
                    threshold,
                ),
                Some(at) => threshold <= INFINITE_LEVEL && is_middle_of_the_nearest(
                    levels,
                    start,
                    stop,
                    threshold,
                    at,
                ),
            }
        }),
{
    let stop = min(end, sample_count);
    if threshold <= INFINITE_LEVEL && some_frame_is_at_or_below(levels, start, stop, threshold) {
        let j = choose|j: int|
            0 <= j < frame_count(start, stop) && #[trigger] frame_level(levels, start, stop, j)
                <= threshold;
        let k = lemma_first_at_or_below(levels, start, stop, threshold, j);
        assert(is_first_quiet(levels, start, stop, threshold, k));
    }
    if exists|k: int| is_first_quiet(levels, start, stop, threshold, k) {
        let k = choose|k: int| is_first_quiet(levels, start, stop, threshold, k);
        assert(frame_middle(start, stop, k) == first_quiet_split(
            levels,
            sample_count,
            start,
            end,
            threshold,
        )->Some_0);
        assert forall|j: int| 0 <= j < k implies #[trigger] frame_level(levels, start, stop, j)
            > threshold by {
            assert(!is_quiet(frame_level(levels, start, stop, j), threshold));
        }
    }
}

/// The first frame at or below a level, no later than one that is.
proof fn lemma_first_at_or_below(
    levels: spec_fn(int, int) -> u32,
    start: int,
    stop: int,
    level: u32,
    from: int,
) -> (k: int)
    requires
        0 <= from,
        frame_level(levels, start, stop, from) <= level,
    ensures
        0 <= k <= from,
        frame_level(levels, start, stop, k) <= level,
        forall|j: int| 0 <= j < k ==> #[trigger] frame_level(levels, start, stop, j) > level,
    decreases from,
{
    if exists|j: int| 0 <= j < from && #[trigger] frame_level(levels, start, stop, j) <= level {
        let j = choose|j: int|
            0 <= j < from && #[trigger] frame_level(levels, start, stop, j) <= level;
        lemma_first_at_or_below(levels, start, stop, level, j)
    } else {
        from
    }
}

/// Where a region is cut, for a threshold that is a finite number. A frame of the search
/// window round the target that is at or below it makes the quietest frame of that window
/// the cut. Otherwise the nearest frame on the way to the ceiling that is at or below it is
/// the cut, however much quieter a later one may be. Only where there is none either is the
/// cut forced, at the quietest frame of the last stretch before the ceiling, or at the
/// ceiling itself where no frame of that stretch has a finite level. Every cut is held to
/// floor and ceiling.
pub proof fn law_pauses_come_before_forced_cuts(
    levels: spec_fn(int, int) -> u32,
    sample_count: int,
    desired: int,
    hard_end: int,
    floor: int,
    search: int,
    threshold: u32,
)
    requires
        threshold < INFINITE_LEVEL,
    ensures
        ({
            let cut = forced_cut(
                levels,
                sample_count,
                desired,
                hard_end,
                floor,
                search,
                threshold,
            );
            let lo = max(max(0, desired - search), floor);
            let hi = min(desired + search, hard_end);
            let last = max(max(0, hard_end - search), floor);
            let window_stop = min(hi, sample_count);
            let stop = min(hard_end, sample_count);
            if some_frame_is_at_or_below(levels, lo, window_stop, threshold) {
                &&& !cut.1
                &&& exists|at: int| #[trigger]
                    is_middle_of_the_quietest(levels, lo, window_stop, at) && cut.0 == min(
                        max(at, floor),
                        hard_end,
                    )
            } else if some_frame_is_at_or_below(levels, hi, stop, threshold) {
                &&& !cut.1
                &&& exists|at: int| #[trigger]
                    is_middle_of_the_nearest(levels, hi, stop, threshold, at) && cut.0 == min(
                        max(at, floor),
                        hard_end,
                    )
            } else {
                &&& cut.1
                &&& !some_frame_is_finite(levels, last, stop) ==> cut.0 == hard_end
                &&& some_frame_is_finite(levels, last, stop) ==> exists|at: int| #[trigger]
                    is_middle_of_the_quietest(levels, last, stop, at) && cut.0 == min(
                        max(at, floor),
                        hard_end,
                    )
            }
        }),
{
    reveal(forced_cut);
    let lo = max(max(0, desired - search), floor);
    let hi = min(desired + search, hard_end);
    let last = max(max(0, hard_end - search), floor);
    law_the_quietest_frame_is_found(levels, sample_count, lo, hi);
    law_the_nearest_pause_is_found(levels, sample_count, hi, hard_end, threshold);
    law_the_quietest_frame_is_found(levels, sample_count, last, hard_end);
    let window_stop = min(hi, sample_count);
    if some_frame_is_at_or_below(levels, lo, window_stop, threshold) {
        let j = choose|j: int|
            0 <= j < frame_count(lo, window_stop) && #[trigger] frame_level(
                levels,
                lo,
                window_stop,
                j,
            ) <= threshold;
        assert(frame_level(levels, lo, window_stop, j) < INFINITE_LEVEL);
    } else if quietest_split(levels, sample_count, lo, hi) is Some {
        let found = quietest_split(levels, sample_count, lo, hi)->Some_0;
        let j = choose|j: int|
            0 <= j < frame_count(lo, window_stop) && #[trigger] frame_level(
                levels,
                lo,
                window_stop,
                j,
            ) <= found.1;
        assert(frame_level(levels, lo, window_stop, j) > threshold);
    }
}

/// No frame counts as a pause under a threshold that is not a number: every cut is forced.
pub proof fn law_no_pause_without_a_threshold(
    levels: spec_fn(int, int) -> u32,
    sample_count: int,
    desired: int,
    hard_end: int,
    floor: int,
    search: int,
    threshold: u32,
)
    requires
        threshold > INFINITE_LEVEL,
    ensures
        forced_cut(levels, sample_count, desired, hard_end, floor, search, threshold).1,
{
    reveal(forced_cut);
    law_the_nearest_pause_is_found(
        levels,
        sample_count,
        min(desired + search, hard_end),
        hard_end,
        threshold,
    );
}

/// Overlap after a cut that is forced through voiced speech.
pub open spec fn forced_overlap(
    overlap: int,
    one_second: int,
    two_seconds: int,
    chunk: int,
) -> int {
    min(min(max(overlap, one_second), two_seconds), max(max(0, chunk - 1), 1))
}

/// Overlap applied when a cut is forced through voiced speech: widened past the
/// configured overlap so that a straddling word is read again whole, but at least one
/// second, at most two, and always below a full chunk, so that slices still advance and
/// the extra audio stays small.
pub fn forced_cut_overlap_samples(
    overlap_samples: usize,
    one_second: usize,
    two_seconds: usize,
    chunk_samples: usize,
) -> (overlap: usize)
    ensures
        overlap == forced_overlap(
            overlap_samples as int,
            one_second as int,
            two_seconds as int,
            chunk_samples as int,
        ),
{
    let widened: usize = smaller(larger(overlap_samples, one_second), two_seconds);
    smaller(widened, larger(chunk_samples.saturating_sub(1), 1))
}

/// The widened overlap is at least one second and at most two wherever a chunk is longer
/// than that, keeps a configured overlap between the two, and is always shorter than a
/// chunk of two samples or more.
pub proof fn law_forced_overlap_is_bounded(
    overlap: int,
    one_second: int,
    two_seconds: int,
    chunk: int,
)
    requires
        0 <= overlap,
        0 <= one_second <= two_seconds,
        0 <= chunk,
    ensures
        ({
            let widened = forced_overlap(overlap, one_second, two_seconds, chunk);
            &&& two_seconds < chunk ==> one_second <= widened <= two_seconds && widened < chunk
            &&& two_seconds < chunk && one_second <= overlap <= two_seconds ==> widened == overlap
            &&& chunk >= 2 ==> widened < chunk
            &&& two_seconds < chunk && overlap < one_second ==> widened == one_second
            &&& two_seconds < chunk && overlap > two_seconds ==> widened == two_seconds
            &&& 2 <= chunk <= one_second ==> widened == chunk - 1
        }),
{
}

} // verus!
