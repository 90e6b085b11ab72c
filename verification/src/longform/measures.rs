//! What the planner asks of a recording.
//!
//! Loudness is measured outside the library. Each measurement enters as a function of
//! plain sample positions; the planner decides which ranges are measured, in what
//! role, and what follows from the answers.

use vstd::prelude::*;

use crate::longform::energy;
use crate::longform::slices::LongFormVadSlice;
use crate::longform::timeline;
use crate::longform::timeline::{TimelineAnchor, TimelineMap};

verus! {

/// A stretch of a recording loud enough to be possible speech, with its level.
#[derive(Debug, Clone, Copy, PartialEq, Eq, Structural)]
pub struct AudibleWindow {
    pub start_sample: usize,
    pub end_sample: usize,
    pub level: u32,
}

/// Two ranges at the edges of an elided gap.
#[derive(Debug, Clone, Copy, PartialEq, Eq, Structural)]
pub struct GapEdges {
    pub left: LongFormVadSlice,
    pub right: LongFormVadSlice,
}

/// The measurements of one recording of `sample_count` samples.
pub struct RecordingMeasures<L, O, B, E, G, A, D> {
    pub sample_count: usize,
    /// Level of a range.
    pub meter: L,
    /// Sample of the recording for a sample of a timeline.
    pub mapper: O,
    /// Cost of a slice boundary in a range, at a scale.
    pub boundary_cost: B,
    /// Cost of eliding a range, next to what is kept.
    pub elision_cost: E,
    /// Cost of cutting at the edges of a gap, next to what is kept, at a scale.
    pub edge_cost: G,
    /// First audible window of a range, next to what is kept.
    pub audible_window: A,
    /// What a report says of a plan that keeps and drops given ranges, one window of
    /// which is audible.
    pub drop_evidence: D,
}

/// The measurements as functions.
pub struct Acoustics {
    pub sample_count: int,
    pub levels: spec_fn(int, int) -> u32,
    pub originals: spec_fn(Seq<TimelineAnchor>, int) -> int,
    pub boundary: spec_fn(int, int, int) -> int,
    pub elision: spec_fn(Seq<LongFormVadSlice>, int, int) -> int,
    pub edges: spec_fn(Seq<LongFormVadSlice>, GapEdges, int) -> int,
    pub audible: spec_fn(Seq<LongFormVadSlice>, int, int) -> Option<AudibleWindow>,
    pub evidence: spec_fn(
        Seq<LongFormVadSlice>,
        Seq<LongFormVadSlice>,
        AudibleWindow,
    ) -> Seq<char>,
}

/// Cost that a boundary measurement gives.
pub open spec fn boundary_of<B: Fn(usize, usize, usize) -> usize>(
    cost: B,
    start: usize,
    end: usize,
    scale: usize,
) -> usize {
    choose|given: usize| #[trigger] call_ensures(cost, (start, end, scale), given)
}

/// Whether an elision measurement may give a cost next to kept ranges.
pub open spec fn elision_gives<E: Fn(&Vec<LongFormVadSlice>, usize, usize) -> usize>(
    cost: E,
    kept: Seq<LongFormVadSlice>,
    start: usize,
    end: usize,
    given: usize,
) -> bool {
    exists|list: Vec<LongFormVadSlice>|
        list@ == kept && #[trigger] call_ensures(cost, (&list, start, end), given)
}

pub open spec fn elision_of<E: Fn(&Vec<LongFormVadSlice>, usize, usize) -> usize>(
    cost: E,
    kept: Seq<LongFormVadSlice>,
    start: usize,
    end: usize,
) -> usize {
    choose|given: usize| #[trigger] elision_gives(cost, kept, start, end, given)
}

/// Whether an edge measurement may give a cost next to kept ranges.
pub open spec fn edges_give<G: Fn(&Vec<LongFormVadSlice>, GapEdges, usize) -> usize>(
    cost: G,
    kept: Seq<LongFormVadSlice>,
    edges: GapEdges,
    scale: usize,
    given: usize,
) -> bool {
    exists|list: Vec<LongFormVadSlice>|
        list@ == kept && #[trigger] call_ensures(cost, (&list, edges, scale), given)
}

pub open spec fn edges_of<G: Fn(&Vec<LongFormVadSlice>, GapEdges, usize) -> usize>(
    cost: G,
    kept: Seq<LongFormVadSlice>,
    edges: GapEdges,
    scale: usize,
) -> usize {
    choose|given: usize| #[trigger] edges_give(cost, kept, edges, scale, given)
}

/// Whether an audibility measurement may find a window next to kept ranges.
pub open spec fn audible_gives<
    A: Fn(&Vec<LongFormVadSlice>, usize, usize) -> Option<AudibleWindow>,
>(
    finder: A,
    kept: Seq<LongFormVadSlice>,
    start: usize,
    end: usize,
    given: Option<AudibleWindow>,
) -> bool {
    exists|list: Vec<LongFormVadSlice>|
        list@ == kept && #[trigger] call_ensures(finder, (&list, start, end), given)
}

pub open spec fn audible_of<
    A: Fn(&Vec<LongFormVadSlice>, usize, usize) -> Option<AudibleWindow>,
>(
    finder: A,
    kept: Seq<LongFormVadSlice>,
    start: usize,
    end: usize,
) -> Option<AudibleWindow> {
    choose|given: Option<AudibleWindow>| #[trigger] audible_gives(finder, kept, start, end, given)
}

/// Whether a report may read so.
pub open spec fn evidence_gives<
    D: Fn(&Vec<LongFormVadSlice>, &Vec<LongFormVadSlice>, AudibleWindow) -> String,
>(
    report: D,
    kept: Seq<LongFormVadSlice>,
    dropped: Seq<LongFormVadSlice>,
    window: AudibleWindow,
    given: Seq<char>,
) -> bool {
    exists|kept_list: Vec<LongFormVadSlice>, dropped_list: Vec<LongFormVadSlice>, text: String|
        kept_list@ == kept && dropped_list@ == dropped && text@ == given
            && #[trigger] call_ensures(report, (&kept_list, &dropped_list, window), text)
}

pub open spec fn evidence_of<
    D: Fn(&Vec<LongFormVadSlice>, &Vec<LongFormVadSlice>, AudibleWindow) -> String,
>(
    report: D,
    kept: Seq<LongFormVadSlice>,
    dropped: Seq<LongFormVadSlice>,
    window: AudibleWindow,
) -> Seq<char> {
    choose|given: Seq<char>| #[trigger] evidence_gives(report, kept, dropped, window, given)
}

impl<
    L: Fn(usize, usize) -> u32,
    O: Fn(&TimelineMap, usize) -> usize,
    B: Fn(usize, usize, usize) -> usize,
    E: Fn(&Vec<LongFormVadSlice>, usize, usize) -> usize,
    G: Fn(&Vec<LongFormVadSlice>, GapEdges, usize) -> usize,
    A: Fn(&Vec<LongFormVadSlice>, usize, usize) -> Option<AudibleWindow>,
    D: Fn(&Vec<LongFormVadSlice>, &Vec<LongFormVadSlice>, AudibleWindow) -> String,
> RecordingMeasures<L, O, B, E, G, A, D> {
    /// The measurements as functions.
    pub open spec fn acoustics(&self) -> Acoustics {
        Acoustics {
            sample_count: self.sample_count as int,
            levels: energy::levels_of(self.meter),
            originals: timeline::originals_of(self.mapper),
            boundary: |start: int, end: int, scale: int|
                boundary_of(
                    self.boundary_cost,
                    start as usize,
                    end as usize,
                    scale as usize,
                ) as int,
            elision: |kept: Seq<LongFormVadSlice>, start: int, end: int|
                elision_of(self.elision_cost, kept, start as usize, end as usize) as int,
            edges: |kept: Seq<LongFormVadSlice>, edges: GapEdges, scale: int|
                edges_of(self.edge_cost, kept, edges, scale as usize) as int,
            audible: |kept: Seq<LongFormVadSlice>, start: int, end: int|
                audible_of(self.audible_window, kept, start as usize, end as usize),
            evidence: |
                kept: Seq<LongFormVadSlice>,
                dropped: Seq<LongFormVadSlice>,
                window: AudibleWindow,
            | evidence_of(self.drop_evidence, kept, dropped, window),
        }
    }

    /// Whether every measurement answers where the planner asks, and always the same for
    /// the same question.
    pub open spec fn answers(&self) -> bool {
        &&& energy::meters(self.meter, self.sample_count as int)
        &&& timeline::maps(self.mapper)
        &&& forall|start: usize, end: usize, scale: usize|
            start < end <= self.sample_count ==> #[trigger] call_requires(
                self.boundary_cost,
                (start, end, scale),
            )
        &&& forall|start: usize, end: usize, scale: usize, x: usize, y: usize|
            #[trigger] call_ensures(self.boundary_cost, (start, end, scale), x)
                && #[trigger] call_ensures(self.boundary_cost, (start, end, scale), y) ==> x == y
        &&& forall|list: Vec<LongFormVadSlice>, start: usize, end: usize|
            start < end <= self.sample_count ==> #[trigger] call_requires(
                self.elision_cost,
                (&list, start, end),
            )
        &&& forall|
            a: Vec<LongFormVadSlice>,
            b: Vec<LongFormVadSlice>,
            start: usize,
            end: usize,
            x: usize,
            y: usize,
        |
            a@ == b@ && #[trigger] call_ensures(self.elision_cost, (&a, start, end), x)
                && #[trigger] call_ensures(self.elision_cost, (&b, start, end), y) ==> x == y
        &&& forall|list: Vec<LongFormVadSlice>, edges: GapEdges, scale: usize|
            edges.left.nonempty() && edges.right.nonempty() && edges.left.end_sample
                <= self.sample_count && edges.right.end_sample <= self.sample_count
                ==> #[trigger] call_requires(self.edge_cost, (&list, edges, scale))
        &&& forall|
            a: Vec<LongFormVadSlice>,
            b: Vec<LongFormVadSlice>,
            edges: GapEdges,
            scale: usize,
            x: usize,
            y: usize,
        |
            a@ == b@ && #[trigger] call_ensures(self.edge_cost, (&a, edges, scale), x)
                && #[trigger] call_ensures(self.edge_cost, (&b, edges, scale), y) ==> x == y
        &&& forall|list: Vec<LongFormVadSlice>, start: usize, end: usize|
            start <= end <= self.sample_count ==> #[trigger] call_requires(
                self.audible_window,
                (&list, start, end),
            )
        &&& forall|
            a: Vec<LongFormVadSlice>,
            b: Vec<LongFormVadSlice>,
            start: usize,
            end: usize,
            x: Option<AudibleWindow>,
            y: Option<AudibleWindow>,
        |
            a@ == b@ && #[trigger] call_ensures(self.audible_window, (&a, start, end), x)
                && #[trigger] call_ensures(self.audible_window, (&b, start, end), y) ==> x == y
        &&& forall|
            kept: Vec<LongFormVadSlice>,
            dropped: Vec<LongFormVadSlice>,
            window: AudibleWindow,
        | #[trigger]
            call_requires(self.drop_evidence, (&kept, &dropped, window))
        &&& forall|
            a: Vec<LongFormVadSlice>,
            b: Vec<LongFormVadSlice>,
            c: Vec<LongFormVadSlice>,
            d: Vec<LongFormVadSlice>,
            window: AudibleWindow,
            x: String,
            y: String,
        |
            a@ == c@ && b@ == d@ && #[trigger] call_ensures(
                self.drop_evidence,
                (&a, &b, window),
                x,
            ) && #[trigger] call_ensures(self.drop_evidence, (&c, &d, window), y) ==> x@ == y@
    }

    pub(crate) fn ask_boundary(&self, start: usize, end: usize, scale: usize) -> (cost: usize)
        requires
            self.answers(),
            start < end <= self.sample_count,
        ensures
            cost == (self.acoustics().boundary)(start as int, end as int, scale as int),
    {
        (self.boundary_cost)(start, end, scale)
    }

    pub(crate) fn ask_elision(
        &self,
        kept: &Vec<LongFormVadSlice>,
        start: usize,
        end: usize,
    ) -> (cost: usize)
        requires
            self.answers(),
            start < end <= self.sample_count,
        ensures
            cost == (self.acoustics().elision)(kept@, start as int, end as int),
    {
        let cost: usize = (self.elision_cost)(kept, start, end);
        assert(elision_gives(self.elision_cost, kept@, start, end, cost));
        cost
    }

    pub(crate) fn ask_edges(
        &self,
        kept: &Vec<LongFormVadSlice>,
        edges: GapEdges,
        scale: usize,
    ) -> (cost: usize)
        requires
            self.answers(),
            edges.left.nonempty(),
            edges.right.nonempty(),
            edges.left.end_sample <= self.sample_count,
            edges.right.end_sample <= self.sample_count,
        ensures
            cost == (self.acoustics().edges)(kept@, edges, scale as int),
    {
        let cost: usize = (self.edge_cost)(kept, edges, scale);
        assert(edges_give(self.edge_cost, kept@, edges, scale, cost));
        cost
    }

    pub(crate) fn ask_audible(
        &self,
        kept: &Vec<LongFormVadSlice>,
        start: usize,
        end: usize,
    ) -> (window: Option<AudibleWindow>)
        requires
            self.answers(),
            start <= end <= self.sample_count,
        ensures
            window == (self.acoustics().audible)(kept@, start as int, end as int),
    {
        let window: Option<AudibleWindow> = (self.audible_window)(kept, start, end);
        assert(audible_gives(self.audible_window, kept@, start, end, window));
        window
    }

    pub(crate) fn ask_evidence(
        &self,
        kept: &Vec<LongFormVadSlice>,
        dropped: &Vec<LongFormVadSlice>,
        window: AudibleWindow,
    ) -> (text: String)
        requires
            self.answers(),
        ensures
            text@ == (self.acoustics().evidence)(kept@, dropped@, window),
    {
        let text: String = (self.drop_evidence)(kept, dropped, window);
        assert(evidence_gives(self.drop_evidence, kept@, dropped@, window, text@));
        text
    }
}

} // verus!
