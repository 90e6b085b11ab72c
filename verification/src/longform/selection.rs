//! How automatic planning chooses among candidates, and what it reports of the choice.

use vstd::math::*;
use vstd::prelude::*;
use vstd::string::*;

use crate::longform::layout::{candidate_kept_and_dropped_ranges, layout_uses_packed_timeline};
use crate::longform::measures::{Acoustics, AudibleWindow, GapEdges, RecordingMeasures};
use crate::longform::options::LongFormOptions;
use crate::longform::scoring;
use crate::longform::scoring::{saturating_product, AutoPlanCandidate, Candidate};
use crate::longform::slices::{larger, AudioSliceKind, LongFormVadSlice};
use crate::longform::sorting;
use crate::longform::sorting::sort_stably;
use crate::longform::spans;
use crate::text;
use crate::text::{append_decimal, append_field};
use crate::longform::timeline::TimelineMap;

verus! {

/// The candidates of a list as values.
pub open spec fn values(candidates: Seq<AutoPlanCandidate>) -> Seq<Candidate> {
    Seq::new(candidates.len(), |i: int| candidates[i]@)
}

impl Candidate {
    /// Number of slices.
    pub open spec fn chunks(self) -> int {
        self.layout.slices.len() as int
    }

    /// Whether no cost of `other` is below this candidate's: samples, slices, short
    /// slices, boundaries, elisions, gap edges and seams.
    pub open spec fn costs_no_more_than(self, other: Candidate) -> bool {
        &&& self.processed_samples <= other.processed_samples
        &&& self.chunks() <= other.chunks()
        &&& self.short_slice_penalty <= other.short_slice_penalty
        &&& self.cuts_no_worse_than(other)
    }

    /// Whether neither boundaries nor elisions, gap edges or seams cost this candidate
    /// more.
    pub open spec fn cuts_no_worse_than(self, other: Candidate) -> bool {
        &&& self.boundary_penalty <= other.boundary_penalty
        &&& self.elision_penalty <= other.elision_penalty
        &&& self.gap_edge_penalty <= other.gap_edge_penalty
        &&& self.seam_penalty <= other.seam_penalty
    }

    pub open spec fn is_packed(self) -> bool {
        self.layout.is_packed()
    }
}

fn cuts_no_worse(a: &AutoPlanCandidate, b: &AutoPlanCandidate) -> (yes: bool)
    ensures
        yes == a@.cuts_no_worse_than(b@),
{
    a.boundary_penalty <= b.boundary_penalty && a.elision_penalty <= b.elision_penalty
        && a.gap_edge_penalty <= b.gap_edge_penalty && a.seam_penalty <= b.seam_penalty
}

// ---------------------------------------------------------------------------
// Names
// ---------------------------------------------------------------------------

pub open spec fn kind_text(kind: AudioSliceKind) -> Seq<char> {
    match kind {
        AudioSliceKind::Full => "full"@,
        AudioSliceKind::Fixed => "fixed"@,
        AudioSliceKind::Energy => "energy"@,
        AudioSliceKind::Vad => "vad"@,
    }
}

pub open spec fn timeline_text(packed: bool) -> Seq<char> {
    if packed {
        "packed"@
    } else {
        "identity"@
    }
}

/// Name of a candidate: its planner and its timeline.
pub open spec fn label(candidate: Candidate) -> Seq<char> {
    kind_text(candidate.kind) + "-"@ + timeline_text(candidate.is_packed())
}

/// Which timeline a candidate lies on.
pub fn auto_candidate_timeline_kind(candidate: &AutoPlanCandidate) -> (text: &'static str)
    ensures
        text@ == timeline_text(candidate@.is_packed()),
{
    if layout_uses_packed_timeline(&candidate.layout) {
        "packed"
    } else {
        "identity"
    }
}

/// Name of a candidate.
pub fn auto_candidate_label(candidate: &AutoPlanCandidate) -> (text: String)
    ensures
        text@ == label(candidate@),
{
    let kind: &'static str = match candidate.kind {
        AudioSliceKind::Full => "full",
        AudioSliceKind::Fixed => "fixed",
        AudioSliceKind::Energy => "energy",
        AudioSliceKind::Vad => "vad",
    };
    let mut text: String = kind.to_owned();
    text.append("-");
    text.append(auto_candidate_timeline_kind(candidate));
    text
}

/// `head` followed by a candidate's name and all of its costs.
pub open spec fn costs_line(head: Seq<char>, c: Candidate) -> Seq<char> {
    head + label(c) + ":score="@ + text::decimal(c.score as nat) + ":processed_samples="@
        + text::decimal(c.processed_samples as nat) + ":chunks="@ + text::decimal(
        c.layout.slices.len(),
    ) + ":short_penalty="@ + text::decimal(c.short_slice_penalty as nat) + ":boundary_penalty="@
        + text::decimal(c.boundary_penalty as nat) + ":elision_penalty="@ + text::decimal(
        c.elision_penalty as nat,
    ) + ":gap_edge_penalty="@ + text::decimal(c.gap_edge_penalty as nat) + ":seam_penalty="@
        + text::decimal(c.seam_penalty as nat) + ":chunk_penalty="@ + text::decimal(
        c.extra_chunk_penalty as nat,
    ) + ":stability_bias="@ + text::decimal(c.stability_bias as nat) + ":contextual_credit="@
        + text::decimal(c.contextual_credit as nat) + ":contextual_penalty="@ + text::decimal(
        c.contextual_penalty as nat,
    )
}

fn append_costs(head: String, c: &AutoPlanCandidate) -> (line: String)
    ensures
        line@ == costs_line(head@, c@),
{
    let mut line: String = head;
    line.append(auto_candidate_label(c).as_str());
    append_field(&mut line, ":score=", c.score);
    append_field(&mut line, ":processed_samples=", c.processed_samples as u128);
    append_field(&mut line, ":chunks=", c.layout.slices.len() as u128);
    append_field(&mut line, ":short_penalty=", c.short_slice_penalty as u128);
    append_field(&mut line, ":boundary_penalty=", c.boundary_penalty as u128);
    append_field(&mut line, ":elision_penalty=", c.elision_penalty as u128);
    append_field(&mut line, ":gap_edge_penalty=", c.gap_edge_penalty as u128);
    append_field(&mut line, ":seam_penalty=", c.seam_penalty as u128);
    append_field(&mut line, ":chunk_penalty=", c.extra_chunk_penalty);
    append_field(&mut line, ":stability_bias=", c.stability_bias);
    append_field(&mut line, ":contextual_credit=", c.contextual_credit);
    append_field(&mut line, ":contextual_penalty=", c.contextual_penalty);
    line
}

/// What is reported of candidates in order of preference: the first as selected, and
/// then up to three with their places.
pub open spec fn selection_report(candidates: Seq<Candidate>) -> Seq<Seq<char>> {
    if candidates.len() == 0 {
        Seq::empty()
    } else {
        seq![costs_line("core.longform.auto.selected:"@, candidates[0])] + ranked_report(
            candidates,
            min(candidates.len() as int, 3),
        )
    }
}

/// The reports of the first `count` candidates with their places.
pub open spec fn ranked_report(candidates: Seq<Candidate>, count: int) -> Seq<Seq<char>> {
    Seq::new(
        count as nat,
        |i: int|
            costs_line(
                "core.longform.auto.candidate["@ + text::decimal(i as nat) + "]:"@,
                candidates[i],
            ),
    )
}

/// Reports candidates in order of preference.
pub fn auto_selection_provenance(candidates: &Vec<AutoPlanCandidate>) -> (provenance: Vec<
    String,
>)
    ensures
        text::texts(provenance@) == selection_report(values(candidates@)),
{
    let mut provenance: Vec<String> = Vec::new();
    if candidates.len() == 0 {
        assert(text::texts(provenance@) =~= selection_report(values(candidates@)));
        return provenance;
    }
    provenance.push(append_costs("core.longform.auto.selected:".to_owned(), &candidates[0]));
    let ghost first = costs_line("core.longform.auto.selected:"@, candidates@[0]@);
    let shown: usize = if candidates.len() < 3 {
        candidates.len()
    } else {
        3
    };
    let mut at: usize = 0;
    assert(text::texts(provenance@) =~= seq![first] + ranked_report(values(candidates@), 0));
    while at < shown
        invariant
            at <= shown <= candidates.len(),
            text::texts(provenance@) == seq![first] + ranked_report(
                values(candidates@),
                at as int,
            ),
        decreases shown - at,
    {
        let mut head: String = "core.longform.auto.candidate[".to_owned();
        append_decimal(&mut head, at as u128);
        head.append("]:");
        let ghost before = text::texts(provenance@);
        provenance.push(append_costs(head, &candidates[at]));
        at = at + 1;
        assert(text::texts(provenance@) =~= before.push(
            ranked_report(values(candidates@), at as int).last(),
        ));
        assert(text::texts(provenance@) =~= seq![first] + ranked_report(
            values(candidates@),
            at as int,
        ));
    }
    provenance
}

// ---------------------------------------------------------------------------
// Leaving candidates out
// ---------------------------------------------------------------------------

/// The first `count` items, without the flagged ones.
pub open spec fn unflagged<A>(items: Seq<A>, flags: Seq<bool>, count: int) -> Seq<A>
    decreases count,
{
    if count <= 0 {
        Seq::empty()
    } else {
        let before = unflagged(items, flags, count - 1);
        if flags[count - 1] {
            before
        } else {
            before.push(items[count - 1])
        }
    }
}

/// What is left holds exactly the items without a flag.
proof fn lemma_unflagged<A>(items: Seq<A>, flags: Seq<bool>, count: int)
    requires
        0 <= count <= items.len(),
        items.len() == flags.len(),
    ensures
        forall|x: A|
            #[trigger] unflagged(items, flags, count).contains(x) <==> exists|i: int|
                0 <= i < count && !(#[trigger] flags[i]) && items[i] == x,
        (exists|i: int| 0 <= i < count && !(#[trigger] flags[i])) ==> unflagged(
            items,
            flags,
            count,
        ).len() > 0,
    decreases count,
{
    if count > 0 {
        lemma_unflagged(items, flags, count - 1);
        let before = unflagged(items, flags, count - 1);
        let after = unflagged(items, flags, count);
        assert forall|x: A| #[trigger] after.contains(x) <==> exists|i: int|
            0 <= i < count && !(#[trigger] flags[i]) && items[i] == x by {
            if after.contains(x) {
                let k = choose|k: int| 0 <= k < after.len() && after[k] == x;
                if k < before.len() {
                    assert(before[k] == x);
                    assert(before.contains(x));
                } else {
                    assert(!flags[count - 1] && items[count - 1] == x);
                }
            }
            if exists|i: int| 0 <= i < count && !(#[trigger] flags[i]) && items[i] == x {
                let i = choose|i: int| 0 <= i < count && !(#[trigger] flags[i]) && items[i] == x;
                if i == count - 1 {
                    assert(after[after.len() - 1] == x);
                } else {
                    assert(before.contains(x));
                    let k = choose|k: int| 0 <= k < before.len() && before[k] == x;
                    assert(after[k] == x);
                }
            }
        }
        if exists|i: int| 0 <= i < count && !(#[trigger] flags[i]) {
            let i = choose|i: int| 0 <= i < count && !(#[trigger] flags[i]);
            assert(after.contains(items[i]));
        }
    }
}

fn retain_unflagged(candidates: Vec<AutoPlanCandidate>, flags: &Vec<bool>) -> (left: Vec<
    AutoPlanCandidate,
>)
    requires
        flags.len() == candidates.len(),
    ensures
        values(left@) == unflagged(values(candidates@), flags@, candidates.len() as int),
{
    let ghost all = candidates@;
    let mut left: Vec<AutoPlanCandidate> = Vec::new();
    let mut at: usize = 0;
    assert(values(left@) =~= unflagged(values(all), flags@, 0));
    for candidate in it: candidates
        invariant
            it.seq() == all,
            at == it.index(),
            flags.len() == all.len(),
            values(left@) == unflagged(values(all), flags@, at as int),
    {
        let ghost before = values(left@);
        if !flags[at] {
            left.push(candidate);
            assert(values(left@) =~= before.push(values(all)[at as int]));
        }
        at = at + 1;
    }
    left
}

/// Whether a voice-activity candidate gains nothing: some energy candidate on the same
/// kind of timeline costs no more in any respect.
pub open spec fn is_dominated(candidates: Seq<Candidate>, c: Candidate) -> bool {
    c.kind == AudioSliceKind::Vad && exists|j: int|
        0 <= j < candidates.len() && dominates(#[trigger] candidates[j], c)
}

/// Whether `other` is an energy candidate on the same kind of timeline that costs no
/// more in any respect.
pub open spec fn dominates(other: Candidate, c: Candidate) -> bool {
    &&& other.kind == AudioSliceKind::Energy
    &&& other.is_packed() == c.is_packed()
    &&& other.costs_no_more_than(c)
}

/// The candidates that are not dominated.
pub open spec fn pruned(candidates: Seq<Candidate>) -> Seq<Candidate> {
    unflagged(
        candidates,
        Seq::new(candidates.len(), |i: int| is_dominated(candidates, candidates[i])),
        candidates.len() as int,
    )
}

/// Leaves out the voice-activity candidates that gain nothing over an energy candidate.
pub fn prune_dominated_vad_candidates(candidates: Vec<AutoPlanCandidate>) -> (left: Vec<
    AutoPlanCandidate,
>)
    ensures
        values(left@) == pruned(values(candidates@)),
{
    let ghost all = values(candidates@);
    let mut flags: Vec<bool> = Vec::new();
    let mut at: usize = 0;
    while at < candidates.len()
        invariant
            at <= candidates.len(),
            all == values(candidates@),
            flags.len() == at,
            forall|i: int| 0 <= i < at ==> #[trigger] flags@[i] == is_dominated(all, all[i]),
        decreases candidates.len() - at,
    {
        let candidate: &AutoPlanCandidate = &candidates[at];
        let mut dominated: bool = false;
        if candidate.kind == AudioSliceKind::Vad {
            let packed: bool = layout_uses_packed_timeline(&candidate.layout);
            let mut other_at: usize = 0;
            while other_at < candidates.len() && !dominated
                invariant
                    at < candidates.len(),
                    other_at <= candidates.len(),
                    all == values(candidates@),
                    candidate@ == all[at as int],
                    candidate@.kind == AudioSliceKind::Vad,
                    packed == candidate@.is_packed(),
                    dominated ==> is_dominated(all, all[at as int]),
                    !dominated ==> forall|j: int|
                        0 <= j < other_at ==> !dominates(#[trigger] all[j], all[at as int]),
                decreases candidates.len() - other_at,
            {
                let other: &AutoPlanCandidate = &candidates[other_at];
                assert(other@ == all[other_at as int]);
                if other.kind == AudioSliceKind::Energy && layout_uses_packed_timeline(
                    &other.layout,
                ) == packed && other.processed_samples <= candidate.processed_samples
                    && other.layout.slices.len() <= candidate.layout.slices.len()
                    && other.short_slice_penalty <= candidate.short_slice_penalty
                    && cuts_no_worse(other, candidate) {
                    assert(dominates(all[other_at as int], all[at as int]));
                    dominated = true;
                }
                other_at = other_at + 1;
            }
        }
        flags.push(dominated);
        at = at + 1;
    }
    assert(flags@ =~= Seq::new(all.len(), |i: int| is_dominated(all, all[i])));
    retain_unflagged(candidates, &flags)
}

/// Pruning leaves out exactly the dominated candidates; in particular every candidate
/// that is not from voice activity stays.
pub proof fn law_pruning_keeps_the_undominated(candidates: Seq<Candidate>, c: Candidate)
    ensures
        pruned(candidates).contains(c) <==> candidates.contains(c) && !is_dominated(
            candidates,
            c,
        ),
{
    let flags = Seq::new(candidates.len(), |i: int| is_dominated(candidates, candidates[i]));
    lemma_unflagged(candidates, flags, candidates.len() as int);
    if candidates.contains(c) && !is_dominated(candidates, c) {
        let i = choose|i: int| 0 <= i < candidates.len() && candidates[i] == c;
        assert(!flags[i] && candidates[i] == c);
    }
}

/// A voice-activity candidate is left out exactly where some energy candidate on the same
/// kind of timeline feeds no more samples in no more slices and costs no more in short
/// slices, boundaries, elisions, gap edges and seams. Every other candidate stays.
pub proof fn law_pruning_leaves_out_what_gains_nothing(candidates: Seq<Candidate>, i: int)
    requires
        0 <= i < candidates.len(),
    ensures
        pruned(candidates).contains(candidates[i]) <==> !(candidates[i].kind == AudioSliceKind::Vad
            && exists|j: int|
            0 <= j < candidates.len() && (#[trigger] candidates[j]).kind == AudioSliceKind::Energy
                && candidates[j].is_packed() == candidates[i].is_packed()
                && candidates[j].processed_samples <= candidates[i].processed_samples
                && candidates[j].layout.slices.len() <= candidates[i].layout.slices.len()
                && candidates[j].short_slice_penalty <= candidates[i].short_slice_penalty
                && candidates[j].boundary_penalty <= candidates[i].boundary_penalty
                && candidates[j].elision_penalty <= candidates[i].elision_penalty
                && candidates[j].gap_edge_penalty <= candidates[i].gap_edge_penalty
                && candidates[j].seam_penalty <= candidates[i].seam_penalty),
{
    let c = candidates[i];
    law_pruning_keeps_the_undominated(candidates, c);
    assert(candidates.contains(c));
    if is_dominated(candidates, c) {
        let j = choose|j: int|
            0 <= j < candidates.len() && dominates(#[trigger] candidates[j], c);
        assert(candidates[j].kind == AudioSliceKind::Energy);
    } else {
        assert forall|j: int| 0 <= j < candidates.len() implies c.kind != AudioSliceKind::Vad
            || !dominates(#[trigger] candidates[j], c) by {}
    }
}

// ---------------------------------------------------------------------------
// Coverage
// ---------------------------------------------------------------------------

/// First audible window in the dropped ranges from the `at`-th on.
pub open spec fn first_audible(
    kept: Seq<LongFormVadSlice>,
    dropped: Seq<LongFormVadSlice>,
    at: int,
    acoustics: Acoustics,
) -> Option<AudibleWindow>
    decreases dropped.len() - at,
{
    if at >= dropped.len() {
        None
    } else {
        let found = (acoustics.audible)(
            kept,
            dropped[at].start_sample as int,
            dropped[at].end_sample as int,
        );
        if found is Some {
            found
        } else {
            first_audible(kept, dropped, at + 1, acoustics)
        }
    }
}

/// The first window of what a candidate drops that reads as audible next to what it
/// keeps.
pub open spec fn audible_drop(c: Candidate, acoustics: Acoustics) -> Option<AudibleWindow> {
    if acoustics.sample_count == 0 {
        None
    } else {
        first_audible(
            c.layout.kept(acoustics.sample_count),
            c.layout.dropped(acoustics.sample_count),
            0,
            acoustics,
        )
    }
}

/// What is reported of a candidate that drops audible content.
pub open spec fn disqualified_line(
    c: Candidate,
    window: AudibleWindow,
    acoustics: Acoustics,
) -> Seq<char> {
    "core.longform.auto.disqualified:"@ + label(c)
        + ":coverage_dominance:drops_audible_content_near_recording_speech_level:"@ + (
    acoustics.evidence)(
        c.layout.kept(acoustics.sample_count),
        c.layout.dropped(acoustics.sample_count),
        window,
    )
}

/// The reports of the first `count` candidates that drop audible content.
pub open spec fn disqualified_report(
    candidates: Seq<Candidate>,
    count: int,
    acoustics: Acoustics,
) -> Seq<Seq<char>>
    decreases count,
{
    if count <= 0 {
        Seq::empty()
    } else {
        let before = disqualified_report(candidates, count - 1, acoustics);
        match audible_drop(candidates[count - 1], acoustics) {
            Some(window) => before.push(
                disqualified_line(candidates[count - 1], window, acoustics),
            ),
            None => before,
        }
    }
}

/// Whether some candidate drops nothing audible while others may.
pub open spec fn coverage_decides(candidates: Seq<Candidate>, acoustics: Acoustics) -> bool {
    &&& candidates.len() >= 2
    &&& exists|i: int|
        0 <= i < candidates.len() && audible_drop(#[trigger] candidates[i], acoustics) is None
}

/// The candidates left by the coverage rule.
pub open spec fn covering(candidates: Seq<Candidate>, acoustics: Acoustics) -> Seq<Candidate> {
    if coverage_decides(candidates, acoustics) {
        unflagged(
            candidates,
            Seq::new(
                candidates.len(),
                |i: int| audible_drop(candidates[i], acoustics) is Some,
            ),
            candidates.len() as int,
        )
    } else {
        candidates
    }
}

/// What the coverage rule reports.
pub open spec fn coverage_report(candidates: Seq<Candidate>, acoustics: Acoustics) -> Seq<
    Seq<char>,
> {
    if coverage_decides(candidates, acoustics) {
        disqualified_report(candidates, candidates.len() as int, acoustics)
    } else {
        Seq::empty()
    }
}

impl<
    L: Fn(usize, usize) -> u32,
    O: Fn(&TimelineMap, usize) -> usize,
    B: Fn(usize, usize, usize) -> usize,
    E: Fn(&Vec<LongFormVadSlice>, usize, usize) -> usize,
    G: Fn(&Vec<LongFormVadSlice>, GapEdges, usize) -> usize,
    A: Fn(&Vec<LongFormVadSlice>, usize, usize) -> Option<AudibleWindow>,
    D: Fn(&Vec<LongFormVadSlice>, &Vec<LongFormVadSlice>, AudibleWindow) -> String,
> RecordingMeasures<L, O, B, E, G, A, D> {
    /// The first audible window of the dropped ranges.
    pub(crate) fn find_audible(
        &self,
        kept: &Vec<LongFormVadSlice>,
        dropped: &Vec<LongFormVadSlice>,
    ) -> (found: Option<AudibleWindow>)
        requires
            self.answers(),
            forall|i: int|
                0 <= i < dropped.len() ==> (#[trigger] dropped@[i]).start_sample
                    <= dropped@[i].end_sample <= self.sample_count,
        ensures
            found == first_audible(kept@, dropped@, 0, self.acoustics()),
    {
        let mut at: usize = 0;
        while at < dropped.len()
            invariant
                at <= dropped.len(),
                self.answers(),
                forall|i: int|
                    0 <= i < dropped.len() ==> (#[trigger] dropped@[i]).start_sample
                        <= dropped@[i].end_sample <= self.sample_count,
                first_audible(kept@, dropped@, 0, self.acoustics()) == first_audible(
                    kept@,
                    dropped@,
                    at as int,
                    self.acoustics(),
                ),
            decreases dropped.len() - at,
        {
            let range: LongFormVadSlice = dropped[at];
            assert(dropped@[at as int].start_sample <= dropped@[at as int].end_sample);
            let found: Option<AudibleWindow> = self.ask_audible(
                kept,
                range.start_sample,
                range.end_sample,
            );
            if found.is_some() {
                return found;
            }
            at = at + 1;
        }
        None
    }

    /// The first window of what a candidate drops that reads as audible, with the report
    /// on the candidate; nothing where it drops nothing audible.
    pub fn candidate_drops_audible_content(&self, candidate: &AutoPlanCandidate) -> (drop: Option<
        (AudibleWindow, String),
    >)
        requires
            self.answers(),
        ensures
            match drop {
                Some(found) => audible_drop(candidate@, self.acoustics()) == Some(found.0)
                    && found.1@ == disqualified_line(candidate@, found.0, self.acoustics()),
                None => audible_drop(candidate@, self.acoustics()) is None,
            },
    {
        if self.sample_count == 0 {
            return None;
        }
        let (kept, dropped) = candidate_kept_and_dropped_ranges(
            &candidate.layout,
            self.sample_count,
        );
        proof {
            spans::lemma_dropped_ranges_are_ranges(
                candidate.layout@.ranges(),
                self.sample_count as int,
            );
        }
        match self.find_audible(&kept, &dropped) {
            None => None,
            Some(window) => {
                let mut line: String = "core.longform.auto.disqualified:".to_owned();
                line.append(auto_candidate_label(candidate).as_str());
                line.append(
                    ":coverage_dominance:drops_audible_content_near_recording_speech_level:",
                );
                line.append(self.ask_evidence(&kept, &dropped, window).as_str());
                Some((window, line))
            },
        }
    }

    /// Coverage comes first: a candidate that drops audible content is out, however
    /// cheap, whenever another one drops none. Where every candidate drops some, all
    /// stay.
    pub fn enforce_coverage_dominance(&self, candidates: Vec<AutoPlanCandidate>) -> (left: (
        Vec<AutoPlanCandidate>,
        Vec<String>,
    ))
        requires
            self.answers(),
        ensures
            values(left.0@) == covering(values(candidates@), self.acoustics()),
            text::texts(left.1@) == coverage_report(values(candidates@), self.acoustics()),
    {
        let ghost all = values(candidates@);
        let ghost acoustics = self.acoustics();
        let mut provenance: Vec<String> = Vec::new();
        assert(text::texts(provenance@) =~= Seq::empty());
        if candidates.len() < 2 {
            return (candidates, provenance);
        }
        let mut flags: Vec<bool> = Vec::new();
        let mut some_covers: bool = false;
        let mut at: usize = 0;
        while at < candidates.len()
            invariant
                at <= candidates.len(),
                self.answers(),
                all == values(candidates@),
                acoustics == self.acoustics(),
                flags.len() == at,
                forall|i: int|
                    0 <= i < at ==> #[trigger] flags@[i] == (audible_drop(all[i], acoustics)
                        is Some),
                some_covers <==> exists|i: int|
                    0 <= i < at && audible_drop(#[trigger] all[i], acoustics) is None,
                text::texts(provenance@) == disqualified_report(all, at as int, acoustics),
            decreases candidates.len() - at,
        {
            assert(candidates@[at as int]@ == all[at as int]);
            let ghost before = text::texts(provenance@);
            match self.candidate_drops_audible_content(&candidates[at]) {
                Some(drop) => {
                    provenance.push(drop.1);
                    assert(text::texts(provenance@) =~= before.push(
                        disqualified_line(all[at as int], drop.0, acoustics),
                    ));
                    flags.push(true);
                },
                None => {
                    some_covers = true;
                    flags.push(false);
                },
            }
            at = at + 1;
        }
        if !some_covers {
            return (candidates, Vec::new());
        }
        assert(flags@ =~= Seq::new(all.len(), |i: int| audible_drop(all[i], acoustics) is Some));
        (retain_unflagged(candidates, &flags), provenance)
    }
}

/// The coverage rule never leaves nothing. Where some candidate drops nothing audible,
/// exactly such candidates are left.
pub proof fn law_coverage_rule(candidates: Seq<Candidate>, acoustics: Acoustics, c: Candidate)
    requires
        candidates.len() > 0,
    ensures
        covering(candidates, acoustics).len() > 0,
        coverage_decides(candidates, acoustics) ==> (covering(candidates, acoustics).contains(c)
            <==> candidates.contains(c) && audible_drop(c, acoustics) is None),
        !coverage_decides(candidates, acoustics) ==> covering(candidates, acoustics) == candidates,
        (exists|i: int|
            0 <= i < candidates.len() && audible_drop(#[trigger] candidates[i], acoustics) is None)
            ==> (covering(candidates, acoustics).contains(c) <==> candidates.contains(c)
            && audible_drop(c, acoustics) is None),
        (forall|i: int|
            0 <= i < candidates.len() ==> audible_drop(#[trigger] candidates[i], acoustics)
                is Some) ==> covering(candidates, acoustics) == candidates,
{
    let flags = Seq::new(
        candidates.len(),
        |i: int| audible_drop(candidates[i], acoustics) is Some,
    );
    lemma_unflagged(candidates, flags, candidates.len() as int);
    if coverage_decides(candidates, acoustics) {
        let k = choose|k: int|
            0 <= k < candidates.len() && audible_drop(#[trigger] candidates[k], acoustics) is None;
        assert(!flags[k]);
        if candidates.contains(c) && audible_drop(c, acoustics) is None {
            let i = choose|i: int| 0 <= i < candidates.len() && candidates[i] == c;
            assert(!flags[i] && candidates[i] == c);
        }
    }
}

/// A candidate drops something audible exactly where one of the ranges that it drops is
/// audible next to what it keeps; the window that is reported is that of the first such
/// range.
pub proof fn law_audible_drop_is_the_first(c: Candidate, acoustics: Acoustics)
    ensures
        acoustics.sample_count == 0 ==> audible_drop(c, acoustics) is None,
        acoustics.sample_count != 0 ==> ({
            let kept = c.layout.kept(acoustics.sample_count);
            let dropped = c.layout.dropped(acoustics.sample_count);
            match audible_drop(c, acoustics) {
                None => forall|k: int|
                    0 <= k < dropped.len() ==> (acoustics.audible)(
                        kept,
                        (#[trigger] dropped[k]).start_sample as int,
                        dropped[k].end_sample as int,
                    ) is None,
                Some(window) => exists|k: int|
                    0 <= k < dropped.len() && (acoustics.audible)(
                        kept,
                        (#[trigger] dropped[k]).start_sample as int,
                        dropped[k].end_sample as int,
                    ) == Some(window) && forall|before: int|
                        0 <= before < k ==> (acoustics.audible)(
                            kept,
                            (#[trigger] dropped[before]).start_sample as int,
                            dropped[before].end_sample as int,
                        ) is None,
            }
        }),
{
    lemma_first_audible(
        c.layout.kept(acoustics.sample_count),
        c.layout.dropped(acoustics.sample_count),
        0,
        acoustics,
    );
}

proof fn lemma_first_audible(
    kept: Seq<LongFormVadSlice>,
    dropped: Seq<LongFormVadSlice>,
    at: int,
    acoustics: Acoustics,
)
    requires
        0 <= at,
    ensures
        match first_audible(kept, dropped, at, acoustics) {
            None => forall|k: int|
                at <= k < dropped.len() ==> (acoustics.audible)(
                    kept,
                    (#[trigger] dropped[k]).start_sample as int,
                    dropped[k].end_sample as int,
                ) is None,
            Some(window) => exists|k: int|
                at <= k < dropped.len() && (acoustics.audible)(
                    kept,
                    (#[trigger] dropped[k]).start_sample as int,
                    dropped[k].end_sample as int,
                ) == Some(window) && forall|before: int|
                    at <= before < k ==> (acoustics.audible)(
                        kept,
                        (#[trigger] dropped[before]).start_sample as int,
                        dropped[before].end_sample as int,
                    ) is None,
        },
    decreases dropped.len() - at,
{
    if at < dropped.len() {
        let here = (acoustics.audible)(
            kept,
            dropped[at].start_sample as int,
            dropped[at].end_sample as int,
        );
        if here is None {
            lemma_first_audible(kept, dropped, at + 1, acoustics);
            if let Some(window) = first_audible(kept, dropped, at + 1, acoustics) {
                let k = choose|k: int|
                    at + 1 <= k < dropped.len() && (acoustics.audible)(
                        kept,
                        (#[trigger] dropped[k]).start_sample as int,
                        dropped[k].end_sample as int,
                    ) == Some(window) && forall|before: int|
                        at + 1 <= before < k ==> (acoustics.audible)(
                            kept,
                            (#[trigger] dropped[before]).start_sample as int,
                            dropped[before].end_sample as int,
                        ) is None;
                assert(at <= k < dropped.len());
                assert forall|before: int| at <= before < k implies (acoustics.audible)(
                    kept,
                    (#[trigger] dropped[before]).start_sample as int,
                    dropped[before].end_sample as int,
                ) is None by {}
            }
        } else {
            assert(first_audible(kept, dropped, at, acoustics) == here);
            assert(dropped[at] == dropped[at]);
        }
    }
}

// ---------------------------------------------------------------------------
// Marginal savings
// ---------------------------------------------------------------------------

/// What lifts a candidate's score past that of a cheaper-looking rival.
pub open spec fn lift(rival: Candidate, c: Candidate) -> u128 {
    min(max(0, rival.score - c.score) + 1, u128::MAX as int) as u128
}

/// A candidate with a penalty on it.
pub open spec fn penalized(c: Candidate, penalty: u128) -> Candidate {
    Candidate {
        contextual_penalty: min(c.contextual_penalty + penalty, u128::MAX as int) as u128,
        score: min(c.score + penalty, u128::MAX as int) as u128,
        ..c
    }
}

fn lift_past(rival: &AutoPlanCandidate, c: &AutoPlanCandidate) -> (penalty: u128)
    ensures
        penalty == lift(rival@, c@),
{
    rival.score.saturating_sub(c.score).saturating_add(1)
}

fn penalize(c: &mut AutoPlanCandidate, penalty: u128)
    ensures
        final(c)@ == penalized(old(c)@, penalty),
        final(c).layout == old(c).layout,
{
    c.contextual_penalty = c.contextual_penalty.saturating_add(penalty);
    c.score = c.score.saturating_add(penalty);
}

/// Samples that a packed candidate must save over an identity candidate of the same
/// planner to be worth its packing: a twentieth of the recording or an eighth of a
/// chunk, and a chunk more for every slice that it adds.
pub open spec fn packed_threshold(
    identity: Candidate,
    c: Candidate,
    total: int,
    options: LongFormOptions,
) -> int {
    let chunk = max(options.chunk_samples as int, 1);
    let base = max(total / 20, chunk / 8);
    let extra = max(0, c.chunks() - identity.chunks());
    if extra == 0 {
        base
    } else {
        scoring::capped(base + scoring::capped(chunk * extra)) as int
    }
}

/// Whether a packed candidate saves too little over an identity candidate that cuts no
/// worse.
pub open spec fn saves_too_little_packed(
    identity: Candidate,
    c: Candidate,
    total: int,
    options: LongFormOptions,
) -> bool {
    &&& !identity.is_packed()
    &&& identity.kind == c.kind
    &&& identity.chunks() <= c.chunks()
    &&& identity.cuts_no_worse_than(c)
    &&& identity.processed_samples > c.processed_samples
    &&& identity.processed_samples - c.processed_samples < packed_threshold(
        identity,
        c,
        total,
        options,
    )
}

/// First identity candidate from the `at`-th on over which `c` saves too little.
pub open spec fn packed_rival(
    candidates: Seq<Candidate>,
    at: int,
    c: Candidate,
    total: int,
    options: LongFormOptions,
) -> Option<int>
    decreases candidates.len() - at,
{
    if at >= candidates.len() {
        None
    } else if saves_too_little_packed(candidates[at], c, total, options) {
        Some(at)
    } else {
        packed_rival(candidates, at + 1, c, total, options)
    }
}

/// The rival that a candidate is measured against, if it is packed and saves too little.
pub open spec fn packed_rival_of(
    candidates: Seq<Candidate>,
    c: Candidate,
    total: int,
    options: LongFormOptions,
) -> Option<int> {
    if c.is_packed() {
        packed_rival(candidates, 0, c, total, options)
    } else {
        None
    }
}

/// Each candidate after the charge on packing that saves too little.
pub open spec fn after_packed_penalties(
    candidates: Seq<Candidate>,
    total: int,
    options: LongFormOptions,
) -> Seq<Candidate> {
    Seq::new(
        candidates.len(),
        |i: int|
            match packed_rival_of(candidates, candidates[i], total, options) {
                Some(rival) => penalized(candidates[i], lift(candidates[rival], candidates[i])),
                None => candidates[i],
            },
    )
}

/// What is reported of a packed candidate that saves too little over its rival.
pub open spec fn packed_penalty_line(
    rival: Candidate,
    c: Candidate,
    total: int,
    options: LongFormOptions,
) -> Seq<char> {
    "core.longform.auto.penalized:"@ + label(c) + ":identity_chunks="@ + text::decimal(
        rival.layout.slices.len(),
    ) + ":packed_chunks="@ + text::decimal(c.layout.slices.len()) + ":penalty="@ + text::decimal(
        lift(rival, c) as nat,
    ) + ":threshold="@ + text::decimal(packed_threshold(rival, c, total, options) as nat)
}

/// The reports on the first `count` candidates.
pub open spec fn packed_penalty_report(
    candidates: Seq<Candidate>,
    count: int,
    total: int,
    options: LongFormOptions,
) -> Seq<Seq<char>>
    decreases count,
{
    if count <= 0 {
        Seq::empty()
    } else {
        let before = packed_penalty_report(candidates, count - 1, total, options);
        let c = candidates[count - 1];
        match packed_rival_of(candidates, c, total, options) {
            Some(rival) => before.push(packed_penalty_line(candidates[rival], c, total, options)),
            None => before,
        }
    }
}

fn packed_savings_threshold(
    identity: &AutoPlanCandidate,
    c: &AutoPlanCandidate,
    total_samples: usize,
    options: &LongFormOptions,
) -> (threshold: usize)
    ensures
        threshold == packed_threshold(identity@, c@, total_samples as int, *options),
{
    let chunk_samples: usize = larger(options.chunk_samples, 1);
    let base: usize = larger(total_samples / 20, chunk_samples / 8);
    let extra: usize = c.layout.slices.len().saturating_sub(identity.layout.slices.len());
    if extra == 0 {
        base
    } else {
        let per_chunk: usize = saturating_product(chunk_samples, extra);
        assert(chunk_samples * extra >= 0) by (nonlinear_arith);
        base.saturating_add(per_chunk)
    }
}

/// Finds the rival of the candidate at `at`, in a list whose packed candidates may have
/// been charged already.
fn find_packed_rival(
    candidates: &Vec<AutoPlanCandidate>,
    at: usize,
    total_samples: usize,
    options: &LongFormOptions,
    Ghost(all): Ghost<Seq<Candidate>>,
) -> (rival: Option<usize>)
    requires
        at < candidates.len(),
        all.len() == candidates.len(),
        candidates@[at as int]@ == all[at as int],
        forall|j: int|
            0 <= j < all.len() ==> (#[trigger] candidates@[j])@.is_packed() == all[j].is_packed()
                && (!all[j].is_packed() ==> candidates@[j]@ == all[j]),
    ensures
        match rival {
            Some(found) => found < all.len() && packed_rival_of(
                all,
                all[at as int],
                total_samples as int,
                *options,
            ) == Some(found as int),
            None => packed_rival_of(all, all[at as int], total_samples as int, *options) is None,
        },
{
    let c: &AutoPlanCandidate = &candidates[at];
    if !layout_uses_packed_timeline(&c.layout) {
        return None;
    }
    let mut j: usize = 0;
    while j < candidates.len()
        invariant
            at < candidates.len(),
            j <= candidates.len() == all.len(),
            c@ == all[at as int],
            c@.is_packed(),
            forall|j: int|
                0 <= j < all.len() ==> (#[trigger] candidates@[j])@.is_packed()
                    == all[j].is_packed() && (!all[j].is_packed() ==> candidates@[j]@ == all[j]),
            packed_rival(all, 0, c@, total_samples as int, *options) == packed_rival(
                all,
                j as int,
                c@,
                total_samples as int,
                *options,
            ),
        decreases candidates.len() - j,
    {
        let other: &AutoPlanCandidate = &candidates[j];
        assert(candidates@[j as int]@.is_packed() == all[j as int].is_packed());
        if !layout_uses_packed_timeline(&other.layout) && other.kind == c.kind
            && other.layout.slices.len() <= c.layout.slices.len() && cuts_no_worse(other, c)
            && other.processed_samples > c.processed_samples {
            let threshold: usize = packed_savings_threshold(other, c, total_samples, options);
            if other.processed_samples - c.processed_samples < threshold {
                return Some(j);
            }
        }
        j = j + 1;
    }
    None
}

/// Charges every packed candidate that saves too little over an identity candidate of
/// the same planner, so that it no longer scores below it.
pub fn apply_marginal_packed_penalties(
    candidates: &mut Vec<AutoPlanCandidate>,
    total_samples: usize,
    options: &LongFormOptions,
) -> (provenance: Vec<String>)
    ensures
        values(final(candidates)@) == after_packed_penalties(
            values(old(candidates)@),
            total_samples as int,
            *options,
        ),
        text::texts(provenance@) == packed_penalty_report(
            values(old(candidates)@),
            old(candidates)@.len() as int,
            total_samples as int,
            *options,
        ),
{
    let ghost all = values(candidates@);
    let ghost total = total_samples as int;
    let ghost charged = after_packed_penalties(all, total, *options);
    let mut provenance: Vec<String> = Vec::new();
    assert(text::texts(provenance@) =~= packed_penalty_report(all, 0, total, *options));
    let mut at: usize = 0;
    while at < candidates.len()
        invariant
            at <= candidates.len() == all.len(),
            total == total_samples,
            charged == after_packed_penalties(all, total, *options),
            forall|i: int| 0 <= i < at ==> (#[trigger] candidates@[i])@ == charged[i],
            forall|i: int| at <= i < all.len() ==> (#[trigger] candidates@[i])@ == all[i],
            text::texts(provenance@) == packed_penalty_report(all, at as int, total, *options),
        decreases candidates.len() - at,
    {
        assert(candidates@[at as int]@ == all[at as int]);
        assert forall|j: int| 0 <= j < all.len() implies (
        #[trigger] candidates@[j])@.is_packed() == all[j].is_packed() && (!all[j].is_packed()
            ==> candidates@[j]@ == all[j]) by {
            if j < at {
                assert(candidates@[j]@ == charged[j]);
            }
        }
        if let Some(rival) = find_packed_rival(
            candidates,
            at,
            total_samples,
            options,
            Ghost(all),
        ) {
            proof {
                lemma_packed_rival(all, 0, all[at as int], total, *options);
                assert(candidates@[rival as int]@ == all[rival as int]);
            }
            let penalty: u128 = lift_past(&candidates[rival], &candidates[at]);
            let threshold: usize = packed_savings_threshold(
                &candidates[rival],
                &candidates[at],
                total_samples,
                options,
            );
            let mut line: String = "core.longform.auto.penalized:".to_owned();
            line.append(auto_candidate_label(&candidates[at]).as_str());
            append_field(
                &mut line,
                ":identity_chunks=",
                candidates[rival].layout.slices.len() as u128,
            );
            append_field(
                &mut line,
                ":packed_chunks=",
                candidates[at].layout.slices.len() as u128,
            );
            append_field(&mut line, ":penalty=", penalty);
            append_field(&mut line, ":threshold=", threshold as u128);
            let ghost before = text::texts(provenance@);
            provenance.push(line);
            assert(text::texts(provenance@) =~= before.push(
                packed_penalty_line(all[rival as int], all[at as int], total, *options),
            ));
            let ghost listed = candidates@;
            penalize(&mut candidates[at], penalty);
            assert(forall|i: int|
                0 <= i < all.len() && i != at ==> #[trigger] candidates@[i] == listed[i]);
        }
        at = at + 1;
    }
    assert(values(candidates@) =~= charged);
    provenance
}

proof fn lemma_packed_rival(
    candidates: Seq<Candidate>,
    at: int,
    c: Candidate,
    total: int,
    options: LongFormOptions,
)
    ensures
        packed_rival(candidates, at, c, total, options) matches Some(rival) ==> at <= rival
            < candidates.len() && saves_too_little_packed(candidates[rival], c, total, options),
    decreases candidates.len() - at,
{
    if at < candidates.len() && !saves_too_little_packed(candidates[at], c, total, options) {
        lemma_packed_rival(candidates, at + 1, c, total, options);
    }
}

/// Packing that pays is not charged. A candidate keeps every cost through the charge on
/// packing unless, over some identity candidate of its planner that has no more slices and
/// costs no more at boundaries, elisions, gap edges and seams, it saves something but less
/// than a twentieth of the recording, less than an eighth of a chunk, or, with more slices,
/// less than a chunk for each of them on top.
pub proof fn law_packing_that_pays_is_not_charged(
    candidates: Seq<Candidate>,
    i: int,
    total: int,
    options: LongFormOptions,
)
    requires
        0 <= i < candidates.len(),
        0 <= total,
        forall|j: int|
            0 <= j < candidates.len() && !(#[trigger] candidates[j]).is_packed()
                && candidates[j].kind == candidates[i].kind && candidates[j].layout.slices.len()
                <= candidates[i].layout.slices.len() && candidates[j].boundary_penalty
                <= candidates[i].boundary_penalty && candidates[j].elision_penalty
                <= candidates[i].elision_penalty && candidates[j].gap_edge_penalty
                <= candidates[i].gap_edge_penalty && candidates[j].seam_penalty
                <= candidates[i].seam_penalty && candidates[j].processed_samples
                > candidates[i].processed_samples ==> {
                let saved = candidates[j].processed_samples - candidates[i].processed_samples;
                let more = candidates[i].layout.slices.len() - candidates[j].layout.slices.len();
                let owed = max(options.chunk_samples as int, 1) * more;
                &&& saved >= total / 20 + owed
                &&& saved >= max(options.chunk_samples as int, 1) / 8 + owed
            },
    ensures
        after_packed_penalties(candidates, total, options)[i] == candidates[i],
{
    let c = candidates[i];
    let rival = packed_rival_of(candidates, c, total, options);
    lemma_packed_rival(candidates, 0, c, total, options);
    if rival is Some {
        let identity = candidates[rival->Some_0];
        let chunk = max(options.chunk_samples as int, 1);
        let more = c.chunks() - identity.chunks();
        if more == 0 {
            assert(chunk * more == 0) by (nonlinear_arith)
                requires
                    more == 0,
            ;
        } else {
            assert(chunk * more >= 0) by (nonlinear_arith)
                requires
                    chunk >= 0,
                    more >= 0,
            ;
        }
    }
}

/// Packing that does not pay loses. A packed candidate that saves too little over an
/// identity candidate ends one point above the score of such a candidate, or one above its
/// own where that was higher already.
pub proof fn law_packing_that_does_not_pay_loses(
    candidates: Seq<Candidate>,
    i: int,
    j: int,
    total: int,
    options: LongFormOptions,
) -> (k: int)
    requires
        0 <= i < candidates.len(),
        0 <= j < candidates.len(),
        0 <= total,
        candidates[i].is_packed(),
        !candidates[j].is_packed(),
        candidates[j].kind == candidates[i].kind,
        candidates[j].layout.slices.len() <= candidates[i].layout.slices.len(),
        candidates[j].boundary_penalty <= candidates[i].boundary_penalty,
        candidates[j].elision_penalty <= candidates[i].elision_penalty,
        candidates[j].gap_edge_penalty <= candidates[i].gap_edge_penalty,
        candidates[j].seam_penalty <= candidates[i].seam_penalty,
        0 < candidates[j].processed_samples - candidates[i].processed_samples < usize::MAX,
        ({
            let saved = candidates[j].processed_samples - candidates[i].processed_samples;
            let more = candidates[i].layout.slices.len() - candidates[j].layout.slices.len();
            let owed = max(options.chunk_samples as int, 1) * more;
            ||| saved < total / 20 + owed
            ||| saved < max(options.chunk_samples as int, 1) / 8 + owed
        }),
    ensures
        0 <= k <= j,
        !candidates[k].is_packed(),
        candidates[k].kind == candidates[i].kind,
        candidates[k].layout.slices.len() <= candidates[i].layout.slices.len(),
        candidates[k].processed_samples > candidates[i].processed_samples,
        ({
            let before = candidates[i];
            let after = after_packed_penalties(candidates, total, options)[i];
            let lifted = if before.score < candidates[k].score {
                candidates[k].score + 1
            } else {
                before.score + 1
            };
            &&& lifted <= u128::MAX ==> after.score == lifted
            &&& lifted > u128::MAX ==> after.score == u128::MAX
            &&& before.contextual_penalty + (lifted - before.score) <= u128::MAX
                ==> after.contextual_penalty == before.contextual_penalty + (lifted - before.score)
            &&& after == (Candidate {
                score: after.score,
                contextual_penalty: after.contextual_penalty,
                ..before
            })
        }),
{
    let c = candidates[i];
    let identity = candidates[j];
    let chunk = max(options.chunk_samples as int, 1);
    let more = c.chunks() - identity.chunks();
    if more == 0 {
        assert(chunk * more == 0) by (nonlinear_arith)
            requires
                more == 0,
        ;
    } else {
        assert(chunk * more >= 0) by (nonlinear_arith)
            requires
                chunk >= 0,
                more >= 0,
        ;
    }
    assert(saves_too_little_packed(identity, c, total, options));
    lemma_first_packed_rival(candidates, 0, j, c, total, options);
    lemma_packed_rival(candidates, 0, c, total, options);
    packed_rival(candidates, 0, c, total, options)->Some_0
}

proof fn lemma_first_packed_rival(
    candidates: Seq<Candidate>,
    at: int,
    j: int,
    c: Candidate,
    total: int,
    options: LongFormOptions,
)
    requires
        0 <= at <= j < candidates.len(),
        saves_too_little_packed(candidates[j], c, total, options),
    ensures
        packed_rival(candidates, at, c, total, options) matches Some(rival) && rival <= j,
    decreases j - at,
{
    if !saves_too_little_packed(candidates[at], c, total, options) {
        lemma_first_packed_rival(candidates, at + 1, j, c, total, options);
    }
}

// ---------------------------------------------------------------------------
// Marginal gains of voice activity over energy
// ---------------------------------------------------------------------------

/// Samples that a voice-activity candidate must save over an energy candidate with as
/// many slices.
pub open spec fn vad_threshold(total: int, options: LongFormOptions) -> int {
    max(total / 40, max(options.chunk_samples as int, 1) / 10)
}

/// Whether a voice-activity candidate saves too little over an energy candidate that
/// cuts no worse.
pub open spec fn saves_too_little_vad(
    rival: Candidate,
    c: Candidate,
    total: int,
    options: LongFormOptions,
) -> bool {
    &&& rival.kind == AudioSliceKind::Energy
    &&& rival.is_packed() == c.is_packed()
    &&& rival.chunks() == c.chunks()
    &&& rival.short_slice_penalty <= c.short_slice_penalty
    &&& rival.cuts_no_worse_than(c)
    &&& rival.processed_samples > c.processed_samples
    &&& rival.processed_samples - c.processed_samples < vad_threshold(total, options)
}

/// First energy candidate from the `at`-th on over which `c` saves too little.
pub open spec fn vad_rival(
    candidates: Seq<Candidate>,
    at: int,
    c: Candidate,
    total: int,
    options: LongFormOptions,
) -> Option<int>
    decreases candidates.len() - at,
{
    if at >= candidates.len() {
        None
    } else if saves_too_little_vad(candidates[at], c, total, options) {
        Some(at)
    } else {
        vad_rival(candidates, at + 1, c, total, options)
    }
}

/// The rival that a candidate is measured against, if it is from voice activity and
/// saves too little.
pub open spec fn vad_rival_of(
    candidates: Seq<Candidate>,
    c: Candidate,
    total: int,
    options: LongFormOptions,
) -> Option<int> {
    if c.kind == AudioSliceKind::Vad {
        vad_rival(candidates, 0, c, total, options)
    } else {
        None
    }
}

/// Each candidate after the charge on voice activity that saves too little.
pub open spec fn after_vad_penalties(
    candidates: Seq<Candidate>,
    total: int,
    options: LongFormOptions,
) -> Seq<Candidate> {
    Seq::new(
        candidates.len(),
        |i: int|
            match vad_rival_of(candidates, candidates[i], total, options) {
                Some(rival) => penalized(candidates[i], lift(candidates[rival], candidates[i])),
                None => candidates[i],
            },
    )
}

/// What is reported of a voice-activity candidate that saves too little over its rival.
pub open spec fn vad_penalty_line(
    rival: Candidate,
    c: Candidate,
    total: int,
    options: LongFormOptions,
) -> Seq<char> {
    "core.longform.auto.penalized:"@ + label(c)
        + ":marginal_vad_savings_below_threshold:same_chunks="@ + text::decimal(
        c.layout.slices.len(),
    ) + ":penalty="@ + text::decimal(lift(rival, c) as nat) + ":threshold="@ + text::decimal(
        vad_threshold(total, options) as nat,
    )
}

/// The reports on the first `count` candidates.
pub open spec fn vad_penalty_report(
    candidates: Seq<Candidate>,
    count: int,
    total: int,
    options: LongFormOptions,
) -> Seq<Seq<char>>
    decreases count,
{
    if count <= 0 {
        Seq::empty()
    } else {
        let before = vad_penalty_report(candidates, count - 1, total, options);
        let c = candidates[count - 1];
        match vad_rival_of(candidates, c, total, options) {
            Some(rival) => before.push(vad_penalty_line(candidates[rival], c, total, options)),
            None => before,
        }
    }
}

proof fn lemma_vad_rival(
    candidates: Seq<Candidate>,
    at: int,
    c: Candidate,
    total: int,
    options: LongFormOptions,
)
    ensures
        vad_rival(candidates, at, c, total, options) matches Some(rival) ==> at <= rival
            < candidates.len() && saves_too_little_vad(candidates[rival], c, total, options),
    decreases candidates.len() - at,
{
    if at < candidates.len() && !saves_too_little_vad(candidates[at], c, total, options) {
        lemma_vad_rival(candidates, at + 1, c, total, options);
    }
}

/// Whether a list agrees with another but for its voice-activity candidates.
pub open spec fn agrees_but_for_vad(
    listed: Seq<AutoPlanCandidate>,
    all: Seq<Candidate>,
) -> bool {
    &&& listed.len() == all.len()
    &&& forall|j: int|
        0 <= j < all.len() ==> (#[trigger] listed[j])@.kind == all[j].kind && (all[j].kind
            != AudioSliceKind::Vad ==> listed[j]@ == all[j])
}

/// Finds the rival of the candidate at `at`, in a list whose voice-activity candidates
/// may have been charged already.
fn find_vad_rival(
    candidates: &Vec<AutoPlanCandidate>,
    at: usize,
    total_samples: usize,
    threshold: usize,
    options: &LongFormOptions,
    Ghost(all): Ghost<Seq<Candidate>>,
) -> (rival: Option<usize>)
    requires
        at < candidates.len(),
        candidates@[at as int]@ == all[at as int],
        agrees_but_for_vad(candidates@, all),
        threshold == vad_threshold(total_samples as int, *options),
    ensures
        match rival {
            Some(found) => found < all.len() && vad_rival_of(
                all,
                all[at as int],
                total_samples as int,
                *options,
            ) == Some(found as int),
            None => vad_rival_of(all, all[at as int], total_samples as int, *options) is None,
        },
{
    let c: &AutoPlanCandidate = &candidates[at];
    if c.kind != AudioSliceKind::Vad {
        return None;
    }
    let packed: bool = layout_uses_packed_timeline(&c.layout);
    let mut j: usize = 0;
    while j < candidates.len()
        invariant
            at < candidates.len(),
            j <= candidates.len(),
            c@ == all[at as int],
            c@.kind == AudioSliceKind::Vad,
            packed == c@.is_packed(),
            agrees_but_for_vad(candidates@, all),
            threshold == vad_threshold(total_samples as int, *options),
            vad_rival(all, 0, c@, total_samples as int, *options) == vad_rival(
                all,
                j as int,
                c@,
                total_samples as int,
                *options,
            ),
        decreases candidates.len() - j,
    {
        let other: &AutoPlanCandidate = &candidates[j];
        assert(candidates@[j as int]@.kind == all[j as int].kind);
        if other.kind == AudioSliceKind::Energy && layout_uses_packed_timeline(&other.layout)
            == packed && other.layout.slices.len() == c.layout.slices.len()
            && other.short_slice_penalty <= c.short_slice_penalty && cuts_no_worse(other, c)
            && other.processed_samples > c.processed_samples && other.processed_samples
            - c.processed_samples < threshold {
            return Some(j);
        }
        j = j + 1;
    }
    None
}

/// Charges every voice-activity candidate that saves too little over an energy candidate
/// with as many slices, so that it no longer scores below it.
pub fn apply_marginal_vad_penalties(
    candidates: &mut Vec<AutoPlanCandidate>,
    total_samples: usize,
    options: &LongFormOptions,
) -> (provenance: Vec<String>)
    ensures
        values(final(candidates)@) == after_vad_penalties(
            values(old(candidates)@),
            total_samples as int,
            *options,
        ),
        text::texts(provenance@) == vad_penalty_report(
            values(old(candidates)@),
            old(candidates)@.len() as int,
            total_samples as int,
            *options,
        ),
{
    let ghost all = values(candidates@);
    let ghost total = total_samples as int;
    let ghost charged = after_vad_penalties(all, total, *options);
    let chunk_samples: usize = larger(options.chunk_samples, 1);
    let threshold: usize = larger(total_samples / 40, chunk_samples / 10);
    let mut provenance: Vec<String> = Vec::new();
    assert(text::texts(provenance@) =~= vad_penalty_report(all, 0, total, *options));
    let mut at: usize = 0;
    while at < candidates.len()
        invariant
            at <= candidates.len() == all.len(),
            total == total_samples,
            threshold == vad_threshold(total, *options),
            charged == after_vad_penalties(all, total, *options),
            forall|i: int| 0 <= i < at ==> (#[trigger] candidates@[i])@ == charged[i],
            forall|i: int| at <= i < all.len() ==> (#[trigger] candidates@[i])@ == all[i],
            text::texts(provenance@) == vad_penalty_report(all, at as int, total, *options),
        decreases candidates.len() - at,
    {
        assert(candidates@[at as int]@ == all[at as int]);
        assert(agrees_but_for_vad(candidates@, all)) by {
            assert forall|j: int| 0 <= j < all.len() implies (#[trigger] candidates@[j])@.kind
                == all[j].kind && (all[j].kind != AudioSliceKind::Vad ==> candidates@[j]@
                == all[j]) by {
                if j < at {
                    assert(candidates@[j]@ == charged[j]);
                }
            }
        }
        if let Some(rival) = find_vad_rival(
            candidates,
            at,
            total_samples,
            threshold,
            options,
            Ghost(all),
        ) {
            proof {
                lemma_vad_rival(all, 0, all[at as int], total, *options);
                assert(candidates@[rival as int]@ == all[rival as int]);
            }
            let penalty: u128 = lift_past(&candidates[rival], &candidates[at]);
            let mut line: String = "core.longform.auto.penalized:".to_owned();
            line.append(auto_candidate_label(&candidates[at]).as_str());
            append_field(
                &mut line,
                ":marginal_vad_savings_below_threshold:same_chunks=",
                candidates[at].layout.slices.len() as u128,
            );
            append_field(&mut line, ":penalty=", penalty);
            append_field(&mut line, ":threshold=", threshold as u128);
            let ghost before = text::texts(provenance@);
            provenance.push(line);
            assert(text::texts(provenance@) =~= before.push(
                vad_penalty_line(all[rival as int], all[at as int], total, *options),
            ));
            let ghost listed = candidates@;
            penalize(&mut candidates[at], penalty);
            assert(forall|i: int|
                0 <= i < all.len() && i != at ==> #[trigger] candidates@[i] == listed[i]);
        }
        at = at + 1;
    }
    assert(values(candidates@) =~= charged);
    provenance
}

/// Voice activity that pays is not charged. A candidate keeps every cost through the charge
/// unless it comes from voice activity and, over some energy candidate with as many slices
/// on the same kind of timeline that costs no more in short slices, boundaries, elisions,
/// gap edges and seams, it saves something but less than a fortieth of the recording or
/// less than a tenth of a chunk.
pub proof fn law_voice_activity_that_pays_is_not_charged(
    candidates: Seq<Candidate>,
    i: int,
    total: int,
    options: LongFormOptions,
)
    requires
        0 <= i < candidates.len(),
        0 <= total,
        candidates[i].kind == AudioSliceKind::Vad ==> forall|j: int|
            0 <= j < candidates.len() && (#[trigger] candidates[j]).kind == AudioSliceKind::Energy
                && candidates[j].is_packed() == candidates[i].is_packed()
                && candidates[j].layout.slices.len() == candidates[i].layout.slices.len()
                && candidates[j].short_slice_penalty <= candidates[i].short_slice_penalty
                && candidates[j].boundary_penalty <= candidates[i].boundary_penalty
                && candidates[j].elision_penalty <= candidates[i].elision_penalty
                && candidates[j].gap_edge_penalty <= candidates[i].gap_edge_penalty
                && candidates[j].seam_penalty <= candidates[i].seam_penalty
                && candidates[j].processed_samples > candidates[i].processed_samples ==> {
                let saved = candidates[j].processed_samples - candidates[i].processed_samples;
                saved >= total / 40 && saved >= options.chunk_samples as int / 10
            },
    ensures
        after_vad_penalties(candidates, total, options)[i] == candidates[i],
{
    lemma_vad_rival(candidates, 0, candidates[i], total, options);
}

/// Voice activity that does not pay loses. A candidate that saves too little over an energy
/// candidate ends one point above the score of such a candidate, or one above its own where
/// that was higher already.
pub proof fn law_voice_activity_that_does_not_pay_loses(
    candidates: Seq<Candidate>,
    i: int,
    j: int,
    total: int,
    options: LongFormOptions,
) -> (k: int)
    requires
        0 <= i < candidates.len(),
        0 <= j < candidates.len(),
        0 <= total,
        candidates[i].kind == AudioSliceKind::Vad,
        candidates[j].kind == AudioSliceKind::Energy,
        candidates[j].is_packed() == candidates[i].is_packed(),
        candidates[j].layout.slices.len() == candidates[i].layout.slices.len(),
        candidates[j].short_slice_penalty <= candidates[i].short_slice_penalty,
        candidates[j].boundary_penalty <= candidates[i].boundary_penalty,
        candidates[j].elision_penalty <= candidates[i].elision_penalty,
        candidates[j].gap_edge_penalty <= candidates[i].gap_edge_penalty,
        candidates[j].seam_penalty <= candidates[i].seam_penalty,
        candidates[i].processed_samples < candidates[j].processed_samples,
        ({
            let saved = candidates[j].processed_samples - candidates[i].processed_samples;
            saved < total / 40 || saved < options.chunk_samples as int / 10
        }),
    ensures
        0 <= k <= j,
        candidates[k].kind == AudioSliceKind::Energy,
        candidates[k].is_packed() == candidates[i].is_packed(),
        candidates[k].layout.slices.len() == candidates[i].layout.slices.len(),
        candidates[k].processed_samples > candidates[i].processed_samples,
        ({
            let before = candidates[i];
            let after = after_vad_penalties(candidates, total, options)[i];
            let lifted = if before.score < candidates[k].score {
                candidates[k].score + 1
            } else {
                before.score + 1
            };
            &&& lifted <= u128::MAX ==> after.score == lifted
            &&& lifted > u128::MAX ==> after.score == u128::MAX
            &&& before.contextual_penalty + (lifted - before.score) <= u128::MAX
                ==> after.contextual_penalty == before.contextual_penalty + (lifted - before.score)
            &&& after == (Candidate {
                score: after.score,
                contextual_penalty: after.contextual_penalty,
                ..before
            })
        }),
{
    let c = candidates[i];
    assert(saves_too_little_vad(candidates[j], c, total, options));
    lemma_first_vad_rival(candidates, 0, j, c, total, options);
    lemma_vad_rival(candidates, 0, c, total, options);
    vad_rival(candidates, 0, c, total, options)->Some_0
}

proof fn lemma_first_vad_rival(
    candidates: Seq<Candidate>,
    at: int,
    j: int,
    c: Candidate,
    total: int,
    options: LongFormOptions,
)
    requires
        0 <= at <= j < candidates.len(),
        saves_too_little_vad(candidates[j], c, total, options),
    ensures
        vad_rival(candidates, at, c, total, options) matches Some(rival) && rival <= j,
    decreases j - at,
{
    if !saves_too_little_vad(candidates[at], c, total, options) {
        lemma_first_vad_rival(candidates, at + 1, j, c, total, options);
    }
}

// ---------------------------------------------------------------------------
// Credit for better boundaries
// ---------------------------------------------------------------------------

/// Gain at the boundaries below which voice activity earns no credit.
pub open spec fn gain_threshold(rate: int, options: LongFormOptions) -> int {
    max(max(options.chunk_samples as int, 1) / 1920, rate / 80)
}

/// Cost of a candidate's boundaries and gap edges.
pub open spec fn boundary_cost_of(c: Candidate) -> int {
    scoring::capped(c.boundary_penalty + c.gap_edge_penalty) as int
}

/// What a voice-activity candidate gains at its boundaries over an energy candidate,
/// less what it costs more in short slices and seams.
pub open spec fn net_gain(rival: Candidate, c: Candidate) -> int {
    let overhead = scoring::capped(
        max(0, c.short_slice_penalty - rival.short_slice_penalty) + max(
            0,
            c.seam_penalty - rival.seam_penalty,
        ),
    );
    max(0, max(0, boundary_cost_of(rival) - boundary_cost_of(c)) - overhead)
}

/// The credit that an energy candidate with as many slices on the same kind of timeline
/// earns a voice-activity candidate.
pub open spec fn credit_over(
    rival: Candidate,
    c: Candidate,
    rate: int,
    options: LongFormOptions,
) -> Option<int> {
    let threshold = gain_threshold(rate, options);
    if rival.kind == AudioSliceKind::Energy && rival.is_packed() == c.is_packed() && rival.chunks()
        == c.chunks() && net_gain(rival, c) >= threshold {
        Some(max(0, net_gain(rival, c) - threshold / 2))
    } else {
        None
    }
}

/// The best credit over the first `count` candidates; zero where none earns any.
pub open spec fn best_credit(
    candidates: Seq<Candidate>,
    count: int,
    c: Candidate,
    rate: int,
    options: LongFormOptions,
) -> int
    decreases count,
{
    if count <= 0 {
        0
    } else {
        let before = best_credit(candidates, count - 1, c, rate, options);
        match credit_over(candidates[count - 1], c, rate, options) {
            Some(credit) => max(before, credit),
            None => before,
        }
    }
}

/// The credit of a candidate.
pub open spec fn credit_of(
    candidates: Seq<Candidate>,
    c: Candidate,
    rate: int,
    options: LongFormOptions,
) -> int {
    if c.kind == AudioSliceKind::Vad {
        best_credit(candidates, candidates.len() as int, c, rate, options)
    } else {
        0
    }
}

/// A candidate with a credit on it.
pub open spec fn rewarded(c: Candidate, credit: int) -> Candidate {
    Candidate {
        contextual_credit: min(c.contextual_credit + credit, u128::MAX as int) as u128,
        score: max(0, c.score - credit) as u128,
        ..c
    }
}

/// Each candidate after the credits for better boundaries.
pub open spec fn after_credits(
    candidates: Seq<Candidate>,
    rate: int,
    options: LongFormOptions,
) -> Seq<Candidate> {
    Seq::new(
        candidates.len(),
        |i: int|
            if credit_of(candidates, candidates[i], rate, options) > 0 {
                rewarded(candidates[i], credit_of(candidates, candidates[i], rate, options))
            } else {
                candidates[i]
            },
    )
}

/// What is reported of a candidate with a credit.
pub open spec fn credit_line(
    c: Candidate,
    credit: int,
    rate: int,
    options: LongFormOptions,
) -> Seq<char> {
    "core.longform.auto.rewarded:"@ + label(c) + ":material_boundary_gain:same_chunks="@
        + text::decimal(c.layout.slices.len()) + ":credit="@ + text::decimal(credit as nat)
        + ":threshold="@ + text::decimal(gain_threshold(rate, options) as nat)
}

/// The reports on the first `count` candidates.
pub open spec fn credit_report(
    candidates: Seq<Candidate>,
    count: int,
    rate: int,
    options: LongFormOptions,
) -> Seq<Seq<char>>
    decreases count,
{
    if count <= 0 {
        Seq::empty()
    } else {
        let before = credit_report(candidates, count - 1, rate, options);
        let c = candidates[count - 1];
        let credit = credit_of(candidates, c, rate, options);
        if credit > 0 {
            before.push(credit_line(c, credit, rate, options))
        } else {
            before
        }
    }
}

/// What `rival` earns `c`, zero where nothing.
fn credit_earned(
    rival: &AutoPlanCandidate,
    c: &AutoPlanCandidate,
    threshold: usize,
    rate: u32,
    options: &LongFormOptions,
) -> (credit: usize)
    requires
        threshold == gain_threshold(rate as int, *options),
    ensures
        match credit_over(rival@, c@, rate as int, *options) {
            Some(earned) => credit == earned,
            None => credit == 0,
        },
{
    if rival.kind != AudioSliceKind::Energy || layout_uses_packed_timeline(&rival.layout)
        != layout_uses_packed_timeline(&c.layout) || rival.layout.slices.len()
        != c.layout.slices.len() {
        return 0;
    }
    let rival_cost: usize = rival.boundary_penalty.saturating_add(rival.gap_edge_penalty);
    let own_cost: usize = c.boundary_penalty.saturating_add(c.gap_edge_penalty);
    let gain: usize = rival_cost.saturating_sub(own_cost);
    let overhead: usize = c.short_slice_penalty.saturating_sub(
        rival.short_slice_penalty,
    ).saturating_add(c.seam_penalty.saturating_sub(rival.seam_penalty));
    let net: usize = gain.saturating_sub(overhead);
    if net < threshold {
        return 0;
    }
    net.saturating_sub(threshold / 2)
}

fn find_credit(
    candidates: &Vec<AutoPlanCandidate>,
    at: usize,
    threshold: usize,
    rate: u32,
    options: &LongFormOptions,
    Ghost(all): Ghost<Seq<Candidate>>,
) -> (credit: usize)
    requires
        at < candidates.len(),
        candidates@[at as int]@ == all[at as int],
        agrees_but_for_vad(candidates@, all),
        threshold == gain_threshold(rate as int, *options),
    ensures
        credit == credit_of(all, all[at as int], rate as int, *options),
{
    let c: &AutoPlanCandidate = &candidates[at];
    if c.kind != AudioSliceKind::Vad {
        return 0;
    }
    let mut best: usize = 0;
    let mut j: usize = 0;
    while j < candidates.len()
        invariant
            at < candidates.len(),
            j <= candidates.len(),
            c@ == all[at as int],
            agrees_but_for_vad(candidates@, all),
            threshold == gain_threshold(rate as int, *options),
            best == best_credit(all, j as int, c@, rate as int, *options),
        decreases candidates.len() - j,
    {
        assert(candidates@[j as int]@.kind == all[j as int].kind);
        let earned: usize = credit_earned(&candidates[j], c, threshold, rate, options);
        best = larger(best, earned);
        j = j + 1;
    }
    best
}

/// Rewards every voice-activity candidate whose boundaries fall in much quieter places
/// than those of an energy candidate with as many slices.
pub fn apply_material_vad_boundary_credits(
    candidates: &mut Vec<AutoPlanCandidate>,
    sample_rate_hz: u32,
    options: &LongFormOptions,
) -> (provenance: Vec<String>)
    ensures
        values(final(candidates)@) == after_credits(
            values(old(candidates)@),
            sample_rate_hz as int,
            *options,
        ),
        text::texts(provenance@) == credit_report(
            values(old(candidates)@),
            old(candidates)@.len() as int,
            sample_rate_hz as int,
            *options,
        ),
{
    let ghost all = values(candidates@);
    let ghost rate = sample_rate_hz as int;
    let ghost charged = after_credits(all, rate, *options);
    let chunk_samples: usize = larger(options.chunk_samples, 1);
    let threshold: usize = larger(chunk_samples / 1920, (sample_rate_hz / 80) as usize);
    let mut provenance: Vec<String> = Vec::new();
    assert(text::texts(provenance@) =~= credit_report(all, 0, rate, *options));
    let mut at: usize = 0;
    while at < candidates.len()
        invariant
            at <= candidates.len() == all.len(),
            rate == sample_rate_hz,
            threshold == gain_threshold(rate, *options),
            charged == after_credits(all, rate, *options),
            forall|i: int| 0 <= i < at ==> (#[trigger] candidates@[i])@ == charged[i],
            forall|i: int| at <= i < all.len() ==> (#[trigger] candidates@[i])@ == all[i],
            text::texts(provenance@) == credit_report(all, at as int, rate, *options),
        decreases candidates.len() - at,
    {
        assert(candidates@[at as int]@ == all[at as int]);
        assert(agrees_but_for_vad(candidates@, all)) by {
            assert forall|j: int| 0 <= j < all.len() implies (#[trigger] candidates@[j])@.kind
                == all[j].kind && (all[j].kind != AudioSliceKind::Vad ==> candidates@[j]@
                == all[j]) by {
                if j < at {
                    assert(candidates@[j]@ == charged[j]);
                }
            }
        }
        let credit: usize = find_credit(
            candidates,
            at,
            threshold,
            sample_rate_hz,
            options,
            Ghost(all),
        );
        if credit > 0 {
            let mut line: String = "core.longform.auto.rewarded:".to_owned();
            line.append(auto_candidate_label(&candidates[at]).as_str());
            append_field(
                &mut line,
                ":material_boundary_gain:same_chunks=",
                candidates[at].layout.slices.len() as u128,
            );
            append_field(&mut line, ":credit=", credit as u128);
            append_field(&mut line, ":threshold=", threshold as u128);
            let ghost before = text::texts(provenance@);
            provenance.push(line);
            assert(text::texts(provenance@) =~= before.push(
                credit_line(all[at as int], credit as int, rate, *options),
            ));
            let ghost listed = candidates@;
            reward(&mut candidates[at], credit);
            assert(forall|i: int|
                0 <= i < all.len() && i != at ==> #[trigger] candidates@[i] == listed[i]);
        }
        at = at + 1;
    }
    assert(values(candidates@) =~= charged);
    provenance
}

fn reward(c: &mut AutoPlanCandidate, credit: usize)
    ensures
        final(c)@ == rewarded(old(c)@, credit as int),
{
    c.contextual_credit = c.contextual_credit.saturating_add(credit as u128);
    c.score = c.score.saturating_sub(credit as u128);
}

/// What an energy candidate offers as credit is counted from its boundaries and gap edges,
/// less what the voice-activity candidate costs more in short slices and seams. Half the
/// threshold is kept back, and nothing is paid below the threshold: a 1920th of a chunk or
/// an eightieth of a second.
///
/// A voice-activity candidate is paid the best of these offers, no other candidate is paid
/// anything, and a credit lowers the score by what it adds to the credits.
pub proof fn law_credit_is_the_best_offer(
    candidates: Seq<Candidate>,
    i: int,
    rate: int,
    options: LongFormOptions,
)
    requires
        0 <= i < candidates.len(),
        0 <= rate,
        forall|j: int|
            0 <= j < candidates.len() ==> (#[trigger] candidates[j]).boundary_penalty
                + candidates[j].gap_edge_penalty <= usize::MAX,
        candidates[i].contextual_credit <= u128::MAX - usize::MAX,
        candidates[i].short_slice_penalty + candidates[i].seam_penalty <= usize::MAX,
    ensures
        ({
            let before = candidates[i];
            let after = after_credits(candidates, rate, options)[i];
            let paid = after.contextual_credit - before.contextual_credit;
            let threshold = max(options.chunk_samples as int / 1920, rate / 80);
            &&& paid >= 0
            &&& after.score == max(0, before.score - paid)
            &&& after == (Candidate {
                score: after.score,
                contextual_credit: after.contextual_credit,
                ..before
            })
            &&& before.kind != AudioSliceKind::Vad ==> paid == 0
            &&& before.kind == AudioSliceKind::Vad ==> forall|j: int|
                0 <= j < candidates.len() && (#[trigger] candidates[j]).kind
                    == AudioSliceKind::Energy && candidates[j].is_packed() == before.is_packed()
                    && candidates[j].layout.slices.len() == before.layout.slices.len() ==> {
                    let gained = (candidates[j].boundary_penalty + candidates[j].gap_edge_penalty)
                        - (before.boundary_penalty + before.gap_edge_penalty);
                    let short = max(
                        0,
                        before.short_slice_penalty - candidates[j].short_slice_penalty,
                    );
                    let seam = max(0, before.seam_penalty - candidates[j].seam_penalty);
                    gained - short - seam >= threshold ==> paid >= gained - short - seam
                        - threshold / 2
                }
            &&& paid > 0 ==> exists|j: int|
                0 <= j < candidates.len() && (#[trigger] candidates[j]).kind
                    == AudioSliceKind::Energy && candidates[j].is_packed() == before.is_packed()
                    && candidates[j].layout.slices.len() == before.layout.slices.len() && ({
                    let gained = (candidates[j].boundary_penalty + candidates[j].gap_edge_penalty)
                        - (before.boundary_penalty + before.gap_edge_penalty);
                    let short = max(
                        0,
                        before.short_slice_penalty - candidates[j].short_slice_penalty,
                    );
                    let seam = max(0, before.seam_penalty - candidates[j].seam_penalty);
                    &&& gained - short - seam >= threshold
                    &&& paid == gained - short - seam - threshold / 2
                })
        }),
{
    let c = candidates[i];
    lemma_best_credit(candidates, candidates.len() as int, c, rate, options);
    let credit = credit_of(candidates, c, rate, options);
    if c.kind == AudioSliceKind::Vad {
        assert forall|j: int|
            0 <= j < candidates.len() && (#[trigger] candidates[j]).kind == AudioSliceKind::Energy
                && candidates[j].is_packed() == c.is_packed() && candidates[j].layout.slices.len()
                == c.layout.slices.len() implies {
            let gained = (candidates[j].boundary_penalty + candidates[j].gap_edge_penalty) - (
            c.boundary_penalty + c.gap_edge_penalty);
            let short = max(0, c.short_slice_penalty - candidates[j].short_slice_penalty);
            let seam = max(0, c.seam_penalty - candidates[j].seam_penalty);
            gained - short - seam >= max(options.chunk_samples as int / 1920, rate / 80)
                ==> credit >= gained - short - seam - max(
                options.chunk_samples as int / 1920,
                rate / 80,
            ) / 2
        } by {
            assert(credit_over(candidates[j], c, rate, options) matches Some(offer) ==> offer
                <= credit);
        }
        if credit > 0 {
            let j = choose|j: int|
                0 <= j < candidates.len() && credit_over(
                    #[trigger] candidates[j],
                    c,
                    rate,
                    options,
                ) == Some(credit);
            assert(candidates[j].kind == AudioSliceKind::Energy);
        }
    }
}

proof fn lemma_best_credit(
    candidates: Seq<Candidate>,
    count: int,
    c: Candidate,
    rate: int,
    options: LongFormOptions,
)
    requires
        0 <= count <= candidates.len(),
    ensures
        ({
            let best = best_credit(candidates, count, c, rate, options);
            &&& best >= 0
            &&& forall|j: int|
                0 <= j < count ==> (credit_over(#[trigger] candidates[j], c, rate, options) matches
                Some(offer) ==> offer <= best)
            &&& best > 0 ==> exists|j: int|
                0 <= j < count && credit_over(#[trigger] candidates[j], c, rate, options) == Some(
                    best,
                )
        }),
    decreases count,
{
    if count > 0 {
        lemma_best_credit(candidates, count - 1, c, rate, options);
        let before = best_credit(candidates, count - 1, c, rate, options);
        let best = best_credit(candidates, count, c, rate, options);
        if best > 0 && best == before {
            let j = choose|j: int|
                0 <= j < count - 1 && credit_over(#[trigger] candidates[j], c, rate, options)
                    == Some(before);
            assert(0 <= j < count);
        } else if best > 0 {
            assert(credit_over(candidates[count - 1], c, rate, options) == Some(best));
        }
    }
}

// ---------------------------------------------------------------------------
// Order of preference
// ---------------------------------------------------------------------------

pub open spec fn kind_rank(kind: AudioSliceKind) -> int {
    match kind {
        AudioSliceKind::Energy => 0,
        AudioSliceKind::Vad => 1,
        AudioSliceKind::Fixed => 2,
        AudioSliceKind::Full => 3,
    }
}

/// Whether one candidate is preferred to another: by score, then by samples, short
/// slices, slices, and planner.
pub open spec fn preferred(a: Candidate, b: Candidate) -> bool {
    if a.score != b.score {
        a.score < b.score
    } else if a.processed_samples != b.processed_samples {
        a.processed_samples < b.processed_samples
    } else if a.short_slice_penalty != b.short_slice_penalty {
        a.short_slice_penalty < b.short_slice_penalty
    } else if a.chunks() != b.chunks() {
        a.chunks() < b.chunks()
    } else {
        kind_rank(a.kind) < kind_rank(b.kind)
    }
}

/// Rank of a planner among otherwise equal candidates.
pub fn auto_plan_kind_rank(kind: AudioSliceKind) -> (rank: u8)
    ensures
        rank == kind_rank(kind),
{
    match kind {
        AudioSliceKind::Energy => 0,
        AudioSliceKind::Vad => 1,
        AudioSliceKind::Fixed => 2,
        AudioSliceKind::Full => 3,
    }
}

/// Whether one candidate is preferred to another.
pub fn prefers_auto_plan_candidate(a: &AutoPlanCandidate, b: &AutoPlanCandidate) -> (yes: bool)
    ensures
        yes == preferred(a@, b@),
{
    if a.score != b.score {
        a.score < b.score
    } else if a.processed_samples != b.processed_samples {
        a.processed_samples < b.processed_samples
    } else if a.short_slice_penalty != b.short_slice_penalty {
        a.short_slice_penalty < b.short_slice_penalty
    } else if a.layout.slices.len() != b.layout.slices.len() {
        a.layout.slices.len() < b.layout.slices.len()
    } else {
        auto_plan_kind_rank(a.kind) < auto_plan_kind_rank(b.kind)
    }
}

/// The order of preference on values.
pub open spec fn by_preference() -> spec_fn(Candidate, Candidate) -> bool {
    |a: Candidate, b: Candidate| preferred(a, b)
}

/// Candidates in order of preference, equals as they came.
pub open spec fn in_preference(candidates: Seq<Candidate>) -> Seq<Candidate> {
    sorting::stably_sorted(candidates, by_preference())
}

/// Sorts candidates by preference.
pub fn sort_auto_plan_candidates(candidates: Vec<AutoPlanCandidate>) -> (sorted: Vec<
    AutoPlanCandidate,
>)
    ensures
        values(sorted@) == in_preference(values(candidates@)),
{
    let ghost before = |a: AutoPlanCandidate, b: AutoPlanCandidate| preferred(a@, b@);
    let ghost all = candidates@;
    let comes_before = |a: &AutoPlanCandidate, b: &AutoPlanCandidate| -> (r: bool)
        ensures
            r == preferred(a@, b@),
        { prefers_auto_plan_candidate(a, b) };
    let sorted: Vec<AutoPlanCandidate> = sort_stably(candidates, &comes_before, Ghost(before));
    proof {
        lemma_sorted_values(all, before);
    }
    sorted
}

proof fn lemma_sorted_values(
    all: Seq<AutoPlanCandidate>,
    before: spec_fn(AutoPlanCandidate, AutoPlanCandidate) -> bool,
)
    requires
        forall|a: AutoPlanCandidate, b: AutoPlanCandidate| #[trigger]
            before(a, b) == preferred(a@, b@),
    ensures
        values(sorting::stably_sorted(all, before)) == in_preference(values(all)),
    decreases all.len(),
{
    if all.len() == 0 {
        assert(values(all) =~= Seq::empty());
        assert(values(sorting::stably_sorted(all, before)) =~= in_preference(values(all)));
    } else {
        let rest = sorting::stably_sorted(all.drop_last(), before);
        lemma_sorted_values(all.drop_last(), before);
        assert(values(all.drop_last()) =~= values(all).drop_last());
        lemma_place_of_values(rest, all.last(), before, rest.len() as int);
        let at = sorting::place(rest, all.last(), before, rest.len() as int);
        sorting::lemma_place(rest, all.last(), before, rest.len() as int);
        assert(values(rest.insert(at, all.last())) =~= values(rest).insert(at, all.last()@));
    }
}

proof fn lemma_place_of_values(
    rest: Seq<AutoPlanCandidate>,
    x: AutoPlanCandidate,
    before: spec_fn(AutoPlanCandidate, AutoPlanCandidate) -> bool,
    p: int,
)
    requires
        0 <= p <= rest.len(),
        forall|a: AutoPlanCandidate, b: AutoPlanCandidate| #[trigger]
            before(a, b) == preferred(a@, b@),
    ensures
        sorting::place(rest, x, before, p) == sorting::place(
            values(rest),
            x@,
            by_preference(),
            p,
        ),
    decreases p,
{
    if p > 0 {
        lemma_place_of_values(rest, x, before, p - 1);
    }
}

/// Candidates stand in the order of their scores; of equal scores the one that feeds fewer
/// samples comes first, then the one that lacks less in short slices, then the one with
/// fewer slices, and at last energy before voice activity before fixed before full.
pub proof fn law_lower_scores_come_first(candidates: Seq<Candidate>, i: int, j: int)
    requires
        0 <= i < j < candidates.len(),
    ensures
        ({
            let a = in_preference(candidates)[i];
            let b = in_preference(candidates)[j];
            &&& in_preference(candidates).to_multiset() == candidates.to_multiset()
            &&& a.score <= b.score
            &&& a.score == b.score ==> a.processed_samples <= b.processed_samples
            &&& a.score == b.score && a.processed_samples == b.processed_samples
                ==> a.short_slice_penalty <= b.short_slice_penalty
            &&& a.score == b.score && a.processed_samples == b.processed_samples
                && a.short_slice_penalty == b.short_slice_penalty ==> a.layout.slices.len()
                <= b.layout.slices.len()
            &&& a.score == b.score && a.processed_samples == b.processed_samples
                && a.short_slice_penalty == b.short_slice_penalty && a.layout.slices.len()
                == b.layout.slices.len() ==> {
                &&& b.kind == AudioSliceKind::Energy ==> a.kind == AudioSliceKind::Energy
                &&& b.kind == AudioSliceKind::Vad ==> a.kind == AudioSliceKind::Energy || a.kind
                    == AudioSliceKind::Vad
                &&& a.kind == AudioSliceKind::Full ==> b.kind == AudioSliceKind::Full
            }
        }),
{
    lemma_preference_compares_ranks();
    sorting::law_sorting_orders_the_same_items(candidates, by_preference());
    let sorted = in_preference(candidates);
    assert(!by_preference()(sorted[j], sorted[i]));
}

proof fn lemma_preference_compares_ranks()
    ensures
        sorting::compares_ranks(by_preference()),
{
    assert forall|a: Candidate, b: Candidate| #[trigger] by_preference()(a, b) implies
        !by_preference()(b, a) by {}
    assert forall|a: Candidate, b: Candidate, c: Candidate|
        !#[trigger] by_preference()(b, a) && !#[trigger] by_preference()(c, b) implies
        !by_preference()(c, a) by {}
}

/// The candidate that is selected is one of the candidates, and none is preferred to it.
pub proof fn law_selection_is_the_best(candidates: Seq<Candidate>)
    requires
        candidates.len() > 0,
    ensures
        in_preference(candidates).len() == candidates.len(),
        candidates.contains(in_preference(candidates)[0]),
        forall|i: int|
            0 <= i < candidates.len() ==> !preferred(
                #[trigger] candidates[i],
                in_preference(candidates)[0],
            ),
{
    broadcast use vstd::seq_lib::group_to_multiset_ensures;

    let sorted = in_preference(candidates);
    lemma_preference_compares_ranks();
    sorting::law_sorting_orders_the_same_items(candidates, by_preference());
    assert(sorted.contains(sorted[0]));
    assert(candidates.to_multiset().count(sorted[0]) == sorted.to_multiset().count(sorted[0]));
    assert forall|i: int| 0 <= i < candidates.len() implies !preferred(
        #[trigger] candidates[i],
        sorted[0],
    ) by {
        assert(candidates.contains(candidates[i]));
        assert(sorted.to_multiset().count(candidates[i]) == candidates.to_multiset().count(
            candidates[i],
        ));
        assert(sorted.contains(candidates[i]));
        let j = choose|j: int| 0 <= j < sorted.len() && sorted[j] == candidates[i];
        if j > 0 {
            assert(!by_preference()(sorted[j], sorted[0]));
        }
    }
}

} // verus!
