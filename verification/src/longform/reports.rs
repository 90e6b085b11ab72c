//! What the reports on a choice tell of it.

use vstd::prelude::*;

use crate::longform::measures::Acoustics;
use crate::longform::options::LongFormOptions;
use crate::longform::planner;
use crate::longform::scoring::Candidate;
use crate::longform::selection;
use crate::longform::slices::AudioSliceKind;
use crate::text;

verus! {

/// Whether a text stands in another at a place.
pub open spec fn stands_at(whole: Seq<char>, part: Seq<char>, place: int) -> bool {
    0 <= place && place + part.len() <= whole.len() && whole.subrange(place, place + part.len())
        == part
}

/// Whether a text holds another.
pub open spec fn holds(whole: Seq<char>, part: Seq<char>) -> bool {
    exists|place: int| #[trigger] stands_at(whole, part, place)
}

/// Whether these are some of the first `count` places, in order.
pub open spec fn are_places(places: Seq<int>, count: int) -> bool {
    &&& forall|k: int| 0 <= k < places.len() ==> 0 <= #[trigger] places[k] < count
    &&& forall|k: int, l: int|
        0 <= k < l < places.len() ==> #[trigger] places[k] < #[trigger] places[l]
}

/// A text that goes on with a name and a number holds both, and all that it held before.
proof fn lemma_goes_on(front: Seq<char>, name: Seq<char>, value: nat)
    ensures
        holds(front + name + text::decimal(value), name + text::decimal(value)),
        forall|part: Seq<char>| #[trigger]
            holds(front, part) ==> holds(front + name + text::decimal(value), part),
        forall|part: Seq<char>| #[trigger]
            part.is_prefix_of(front) ==> part.is_prefix_of(front + name + text::decimal(value)),
{
    let whole = front + name + text::decimal(value);
    let field = name + text::decimal(value);
    assert(whole.subrange(front.len() as int, (front.len() + field.len()) as int) =~= field);
    assert(stands_at(whole, field, front.len() as int));
    assert forall|part: Seq<char>| #[trigger] holds(front, part) implies holds(whole, part) by {
        let place = choose|place: int| #[trigger] stands_at(front, part, place);
        assert(whole.subrange(place, place + part.len()) =~= front.subrange(
            place,
            place + part.len(),
        ));
        assert(stands_at(whole, part, place));
    }
    assert forall|part: Seq<char>| #[trigger] part.is_prefix_of(front) implies part.is_prefix_of(
        whole,
    ) by {
        assert(part =~= whole.subrange(0, part.len() as int));
    }
}

/// A candidate goes by its planner and its timeline.
pub proof fn law_candidates_go_by_planner_and_timeline(c: Candidate)
    ensures
        c.kind == AudioSliceKind::Full && !c.is_packed() ==> selection::label(c)
            == "full-identity"@,
        c.kind == AudioSliceKind::Full && c.is_packed() ==> selection::label(c) == "full-packed"@,
        c.kind == AudioSliceKind::Fixed && !c.is_packed() ==> selection::label(c)
            == "fixed-identity"@,
        c.kind == AudioSliceKind::Fixed && c.is_packed() ==> selection::label(c)
            == "fixed-packed"@,
        c.kind == AudioSliceKind::Energy && !c.is_packed() ==> selection::label(c)
            == "energy-identity"@,
        c.kind == AudioSliceKind::Energy && c.is_packed() ==> selection::label(c)
            == "energy-packed"@,
        c.kind == AudioSliceKind::Vad && !c.is_packed() ==> selection::label(c)
            == "vad-identity"@,
        c.kind == AudioSliceKind::Vad && c.is_packed() ==> selection::label(c) == "vad-packed"@,
{
    reveal_strlit("full");
    reveal_strlit("fixed");
    reveal_strlit("energy");
    reveal_strlit("vad");
    reveal_strlit("-");
    reveal_strlit("packed");
    reveal_strlit("identity");
    reveal_strlit("full-identity");
    reveal_strlit("full-packed");
    reveal_strlit("fixed-identity");
    reveal_strlit("fixed-packed");
    reveal_strlit("energy-identity");
    reveal_strlit("energy-packed");
    reveal_strlit("vad-identity");
    reveal_strlit("vad-packed");
    assert(selection::kind_text(c.kind) + "-"@ + selection::timeline_text(c.is_packed())
        =~= selection::label(c));
    assert("full"@ + "-"@ + "identity"@ =~= "full-identity"@);
    assert("full"@ + "-"@ + "packed"@ =~= "full-packed"@);
    assert("fixed"@ + "-"@ + "identity"@ =~= "fixed-identity"@);
    assert("fixed"@ + "-"@ + "packed"@ =~= "fixed-packed"@);
    assert("energy"@ + "-"@ + "identity"@ =~= "energy-identity"@);
    assert("energy"@ + "-"@ + "packed"@ =~= "energy-packed"@);
    assert("vad"@ + "-"@ + "identity"@ =~= "vad-identity"@);
    assert("vad"@ + "-"@ + "packed"@ =~= "vad-packed"@);
}

/// Whether a line opens with a head and the name of a candidate, and tells all of its costs.
pub open spec fn tells_costs(line: Seq<char>, head: Seq<char>, c: Candidate) -> bool {
    &&& (head + selection::label(c)).is_prefix_of(line)
    &&& holds(line, ":score="@ + text::decimal(c.score as nat))
    &&& holds(line, ":processed_samples="@ + text::decimal(c.processed_samples as nat))
    &&& holds(line, ":chunks="@ + text::decimal(c.layout.slices.len()))
    &&& holds(line, ":short_penalty="@ + text::decimal(c.short_slice_penalty as nat))
    &&& holds(line, ":boundary_penalty="@ + text::decimal(c.boundary_penalty as nat))
    &&& holds(line, ":elision_penalty="@ + text::decimal(c.elision_penalty as nat))
    &&& holds(line, ":gap_edge_penalty="@ + text::decimal(c.gap_edge_penalty as nat))
    &&& holds(line, ":seam_penalty="@ + text::decimal(c.seam_penalty as nat))
    &&& holds(line, ":chunk_penalty="@ + text::decimal(c.extra_chunk_penalty as nat))
    &&& holds(line, ":stability_bias="@ + text::decimal(c.stability_bias as nat))
    &&& holds(line, ":contextual_credit="@ + text::decimal(c.contextual_credit as nat))
    &&& holds(line, ":contextual_penalty="@ + text::decimal(c.contextual_penalty as nat))
}

proof fn lemma_costs_line(head: Seq<char>, c: Candidate)
    ensures
        tells_costs(selection::costs_line(head, c), head, c),
{
    let l0 = head + selection::label(c);
    assert(l0 =~= l0.subrange(0, l0.len() as int));
    lemma_goes_on(l0, ":score="@, c.score as nat);
    let l1 = l0 + ":score="@ + text::decimal(c.score as nat);
    lemma_goes_on(l1, ":processed_samples="@, c.processed_samples as nat);
    let l2 = l1 + ":processed_samples="@ + text::decimal(c.processed_samples as nat);
    lemma_goes_on(l2, ":chunks="@, c.layout.slices.len());
    let l3 = l2 + ":chunks="@ + text::decimal(c.layout.slices.len());
    lemma_goes_on(l3, ":short_penalty="@, c.short_slice_penalty as nat);
    let l4 = l3 + ":short_penalty="@ + text::decimal(c.short_slice_penalty as nat);
    lemma_goes_on(l4, ":boundary_penalty="@, c.boundary_penalty as nat);
    let l5 = l4 + ":boundary_penalty="@ + text::decimal(c.boundary_penalty as nat);
    lemma_goes_on(l5, ":elision_penalty="@, c.elision_penalty as nat);
    let l6 = l5 + ":elision_penalty="@ + text::decimal(c.elision_penalty as nat);
    lemma_goes_on(l6, ":gap_edge_penalty="@, c.gap_edge_penalty as nat);
    let l7 = l6 + ":gap_edge_penalty="@ + text::decimal(c.gap_edge_penalty as nat);
    lemma_goes_on(l7, ":seam_penalty="@, c.seam_penalty as nat);
    let l8 = l7 + ":seam_penalty="@ + text::decimal(c.seam_penalty as nat);
    lemma_goes_on(l8, ":chunk_penalty="@, c.extra_chunk_penalty as nat);
    let l9 = l8 + ":chunk_penalty="@ + text::decimal(c.extra_chunk_penalty as nat);
    lemma_goes_on(l9, ":stability_bias="@, c.stability_bias as nat);
    let l10 = l9 + ":stability_bias="@ + text::decimal(c.stability_bias as nat);
    lemma_goes_on(l10, ":contextual_credit="@, c.contextual_credit as nat);
    let l11 = l10 + ":contextual_credit="@ + text::decimal(c.contextual_credit as nat);
    lemma_goes_on(l11, ":contextual_penalty="@, c.contextual_penalty as nat);
    let l12 = l11 + ":contextual_penalty="@ + text::decimal(c.contextual_penalty as nat);
    assert(selection::costs_line(head, c) == l12);
}

/// The report on a choice tells of the first candidate that it was selected, and then of the
/// first three with their places, each with all of its costs; it is empty where there is
/// nothing to choose.
pub proof fn law_the_report_tells_what_was_chosen(candidates: Seq<Candidate>)
    ensures
        ({
            let report = selection::selection_report(candidates);
            &&& candidates.len() == 0 ==> report.len() == 0
            &&& 1 <= candidates.len() <= 3 ==> report.len() == 1 + candidates.len()
            &&& candidates.len() > 3 ==> report.len() == 4
            &&& candidates.len() > 0 ==> tells_costs(
                report[0],
                "core.longform.auto.selected:"@,
                candidates[0],
            )
            &&& forall|i: int|
                0 <= i < candidates.len() && i < 3 ==> tells_costs(
                    report[i + 1],
                    "core.longform.auto.candidate["@ + text::decimal(i as nat) + "]:"@,
                    #[trigger] candidates[i],
                )
        }),
{
    if candidates.len() > 0 {
        let report = selection::selection_report(candidates);
        lemma_costs_line("core.longform.auto.selected:"@, candidates[0]);
        assert forall|i: int| 0 <= i < candidates.len() && i < 3 implies tells_costs(
            report[i + 1],
            "core.longform.auto.candidate["@ + text::decimal(i as nat) + "]:"@,
            #[trigger] candidates[i],
        ) by {
            lemma_costs_line(
                "core.longform.auto.candidate["@ + text::decimal(i as nat) + "]:"@,
                candidates[i],
            );
        }
    }
}

/// The report on a candidate for packing that saves too little.
spec fn packed_line(
    candidates: Seq<Candidate>,
    place: int,
    total: int,
    options: LongFormOptions,
) -> Seq<char> {
    let c = candidates[place];
    selection::packed_penalty_line(
        candidates[selection::packed_rival_of(candidates, c, total, options)->0],
        c,
        total,
        options,
    )
}

/// The report on a candidate for voice activity that saves too little.
spec fn vad_line(
    candidates: Seq<Candidate>,
    place: int,
    total: int,
    options: LongFormOptions,
) -> Seq<char> {
    let c = candidates[place];
    selection::vad_penalty_line(
        candidates[selection::vad_rival_of(candidates, c, total, options)->0],
        c,
        total,
        options,
    )
}

/// The report on a candidate for its boundaries.
spec fn credit_line(
    candidates: Seq<Candidate>,
    place: int,
    rate: int,
    options: LongFormOptions,
) -> Seq<char> {
    let c = candidates[place];
    selection::credit_line(c, selection::credit_of(candidates, c, rate, options), rate, options)
}

/// The report on a candidate for what it drops.
spec fn disqualified_line(
    candidates: Seq<Candidate>,
    place: int,
    acoustics: Acoustics,
) -> Seq<char> {
    let c = candidates[place];
    selection::disqualified_line(c, selection::audible_drop(c, acoustics)->0, acoustics)
}

/// The places of the candidates that are reported for packing that saves too little.
proof fn lemma_packed_places(
    candidates: Seq<Candidate>,
    count: int,
    total: int,
    options: LongFormOptions,
) -> (places: Seq<int>)
    requires
        0 <= count <= candidates.len(),
    ensures
        are_places(places, count),
        selection::packed_penalty_report(candidates, count, total, options).len() == places.len(),
        forall|i: int|
            0 <= i < count ==> (places.contains(i) <==> (#[trigger] selection::packed_rival_of(
                candidates,
                candidates[i],
                total,
                options,
            )) is Some),
        forall|k: int|
            0 <= k < places.len() ==> #[trigger] selection::packed_penalty_report(
                candidates,
                count,
                total,
                options,
            )[k] == packed_line(candidates, places[k], total, options),
    decreases count,
{
    if count <= 0 {
        Seq::empty()
    } else {
        let before = lemma_packed_places(candidates, count - 1, total, options);
        let report = selection::packed_penalty_report(candidates, count - 1, total, options);
        if selection::packed_rival_of(candidates, candidates[count - 1], total, options) is Some {
            let places = before.push(count - 1);
            assert forall|i: int| 0 <= i < count implies (places.contains(i) <==>
            (#[trigger] selection::packed_rival_of(
                candidates,
                candidates[i],
                total,
                options,
            )) is Some) by {
                if i < count - 1 && before.contains(i) {
                    let k = choose|k: int| 0 <= k < before.len() && before[k] == i;
                    assert(places[k] == i);
                }
                if i < count - 1 && places.contains(i) {
                    let k = choose|k: int| 0 <= k < places.len() && places[k] == i;
                    assert(before[k] == i);
                }
                if i == count - 1 {
                    assert(places[before.len() as int] == i);
                }
            }
            assert forall|k: int| 0 <= k < places.len() implies
            #[trigger] selection::packed_penalty_report(
                candidates,
                count,
                total,
                options,
            )[k] == packed_line(candidates, places[k], total, options) by {
                if k < before.len() {
                    assert(report[k] == selection::packed_penalty_report(
                        candidates,
                        count,
                        total,
                        options,
                    )[k]);
                }
            }
            places
        } else {
            assert forall|i: int| 0 <= i < count implies (before.contains(i) <==>
            (#[trigger] selection::packed_rival_of(
                candidates,
                candidates[i],
                total,
                options,
            )) is Some) by {
                if i == count - 1 && before.contains(i) {
                    let k = choose|k: int| 0 <= k < before.len() && before[k] == i;
                    assert(before[k] < count - 1);
                }
            }
            before
        }
    }
}

/// The places of the candidates that are reported for voice activity that saves too little.
proof fn lemma_vad_places(
    candidates: Seq<Candidate>,
    count: int,
    total: int,
    options: LongFormOptions,
) -> (places: Seq<int>)
    requires
        0 <= count <= candidates.len(),
    ensures
        are_places(places, count),
        selection::vad_penalty_report(candidates, count, total, options).len() == places.len(),
        forall|i: int|
            0 <= i < count ==> (places.contains(i) <==> (#[trigger] selection::vad_rival_of(
                candidates,
                candidates[i],
                total,
                options,
            )) is Some),
        forall|k: int|
            0 <= k < places.len() ==> #[trigger] selection::vad_penalty_report(
                candidates,
                count,
                total,
                options,
            )[k] == vad_line(candidates, places[k], total, options),
    decreases count,
{
    if count <= 0 {
        Seq::empty()
    } else {
        let before = lemma_vad_places(candidates, count - 1, total, options);
        let report = selection::vad_penalty_report(candidates, count - 1, total, options);
        if selection::vad_rival_of(candidates, candidates[count - 1], total, options) is Some {
            let places = before.push(count - 1);
            assert forall|i: int| 0 <= i < count implies (places.contains(i) <==>
            (#[trigger] selection::vad_rival_of(
                candidates,
                candidates[i],
                total,
                options,
            )) is Some) by {
                if i < count - 1 && before.contains(i) {
                    let k = choose|k: int| 0 <= k < before.len() && before[k] == i;
                    assert(places[k] == i);
                }
                if i < count - 1 && places.contains(i) {
                    let k = choose|k: int| 0 <= k < places.len() && places[k] == i;
                    assert(before[k] == i);
                }
                if i == count - 1 {
                    assert(places[before.len() as int] == i);
                }
            }
            assert forall|k: int| 0 <= k < places.len() implies
            #[trigger] selection::vad_penalty_report(
                candidates,
                count,
                total,
                options,
            )[k] == vad_line(candidates, places[k], total, options) by {
                if k < before.len() {
                    assert(report[k] == selection::vad_penalty_report(
                        candidates,
                        count,
                        total,
                        options,
                    )[k]);
                }
            }
            places
        } else {
            assert forall|i: int| 0 <= i < count implies (before.contains(i) <==>
            (#[trigger] selection::vad_rival_of(
                candidates,
                candidates[i],
                total,
                options,
            )) is Some) by {
                if i == count - 1 && before.contains(i) {
                    let k = choose|k: int| 0 <= k < before.len() && before[k] == i;
                    assert(before[k] < count - 1);
                }
            }
            before
        }
    }
}

/// The places of the candidates that are reported for their boundaries.
proof fn lemma_credit_places(
    candidates: Seq<Candidate>,
    count: int,
    rate: int,
    options: LongFormOptions,
) -> (places: Seq<int>)
    requires
        0 <= count <= candidates.len(),
    ensures
        are_places(places, count),
        selection::credit_report(candidates, count, rate, options).len() == places.len(),
        forall|i: int|
            0 <= i < count ==> (places.contains(i) <==> #[trigger] selection::credit_of(
                candidates,
                candidates[i],
                rate,
                options,
            ) > 0),
        forall|k: int|
            0 <= k < places.len() ==> #[trigger] selection::credit_report(
                candidates,
                count,
                rate,
                options,
            )[k] == credit_line(candidates, places[k], rate, options),
    decreases count,
{
    if count <= 0 {
        Seq::empty()
    } else {
        let before = lemma_credit_places(candidates, count - 1, rate, options);
        let report = selection::credit_report(candidates, count - 1, rate, options);
        if selection::credit_of(candidates, candidates[count - 1], rate, options) > 0 {
            let places = before.push(count - 1);
            assert forall|i: int| 0 <= i < count implies (places.contains(i) <==>
            #[trigger] selection::credit_of(
                candidates,
                candidates[i],
                rate,
                options,
            ) > 0) by {
                if i < count - 1 && before.contains(i) {
                    let k = choose|k: int| 0 <= k < before.len() && before[k] == i;
                    assert(places[k] == i);
                }
                if i < count - 1 && places.contains(i) {
                    let k = choose|k: int| 0 <= k < places.len() && places[k] == i;
                    assert(before[k] == i);
                }
                if i == count - 1 {
                    assert(places[before.len() as int] == i);
                }
            }
            assert forall|k: int| 0 <= k < places.len() implies #[trigger] selection::credit_report(
                candidates,
                count,
                rate,
                options,
            )[k] == credit_line(candidates, places[k], rate, options) by {
                if k < before.len() {
                    assert(report[k] == selection::credit_report(
                        candidates,
                        count,
                        rate,
                        options,
                    )[k]);
                }
            }
            places
        } else {
            assert forall|i: int| 0 <= i < count implies (before.contains(i) <==>
            #[trigger] selection::credit_of(
                candidates,
                candidates[i],
                rate,
                options,
            ) > 0) by {
                if i == count - 1 && before.contains(i) {
                    let k = choose|k: int| 0 <= k < before.len() && before[k] == i;
                    assert(before[k] < count - 1);
                }
            }
            before
        }
    }
}

/// The places of the candidates that are reported for what they drop.
proof fn lemma_disqualified_places(
    candidates: Seq<Candidate>,
    count: int,
    acoustics: Acoustics,
) -> (places: Seq<int>)
    requires
        0 <= count <= candidates.len(),
    ensures
        are_places(places, count),
        selection::disqualified_report(candidates, count, acoustics).len() == places.len(),
        forall|i: int|
            0 <= i < count ==> (places.contains(i) <==> (#[trigger] selection::audible_drop(
                candidates[i],
                acoustics,
            )) is Some),
        forall|k: int|
            0 <= k < places.len() ==> #[trigger] selection::disqualified_report(
                candidates,
                count,
                acoustics,
            )[k] == disqualified_line(candidates, places[k], acoustics),
    decreases count,
{
    if count <= 0 {
        Seq::empty()
    } else {
        let before = lemma_disqualified_places(candidates, count - 1, acoustics);
        let report = selection::disqualified_report(candidates, count - 1, acoustics);
        if selection::audible_drop(candidates[count - 1], acoustics) is Some {
            let places = before.push(count - 1);
            assert forall|i: int| 0 <= i < count implies (places.contains(i) <==>
            (#[trigger] selection::audible_drop(
                candidates[i],
                acoustics,
            )) is Some) by {
                if i < count - 1 && before.contains(i) {
                    let k = choose|k: int| 0 <= k < before.len() && before[k] == i;
                    assert(places[k] == i);
                }
                if i < count - 1 && places.contains(i) {
                    let k = choose|k: int| 0 <= k < places.len() && places[k] == i;
                    assert(before[k] == i);
                }
                if i == count - 1 {
                    assert(places[before.len() as int] == i);
                }
            }
            assert forall|k: int| 0 <= k < places.len() implies
            #[trigger] selection::disqualified_report(
                candidates,
                count,
                acoustics,
            )[k] == disqualified_line(candidates, places[k], acoustics) by {
                if k < before.len() {
                    assert(report[k] == selection::disqualified_report(
                        candidates,
                        count,
                        acoustics,
                    )[k]);
                }
            }
            places
        } else {
            assert forall|i: int| 0 <= i < count implies (before.contains(i) <==>
            (#[trigger] selection::audible_drop(
                candidates[i],
                acoustics,
            )) is Some) by {
                if i == count - 1 && before.contains(i) {
                    let k = choose|k: int| 0 <= k < before.len() && before[k] == i;
                    assert(before[k] < count - 1);
                }
            }
            before
        }
    }
}

/// Every candidate that is charged for packing is reported, in order, with its name, the slices
/// of both, and what it takes to come out behind its rival; no other candidate is.
pub proof fn law_charged_packing_is_reported(
    candidates: Seq<Candidate>,
    total: int,
    options: LongFormOptions,
) -> (places: Seq<int>)
    ensures
        ({
            let report = selection::packed_penalty_report(
                candidates,
                candidates.len() as int,
                total,
                options,
            );
            let after = selection::after_packed_penalties(candidates, total, options);
            &&& are_places(places, candidates.len() as int)
            &&& report.len() == places.len()
            &&& forall|i: int|
                0 <= i < candidates.len() && #[trigger] after[i] != candidates[i]
                    ==> places.contains(i)
            &&& forall|k: int|
                #![trigger report[k]]
                0 <= k < places.len() ==> {
                    let c = candidates[places[k]];
                    &&& after[places[k]].score > c.score || c.score == u128::MAX
                    &&& ("core.longform.auto.penalized:"@ + selection::label(c)).is_prefix_of(
                        report[k],
                    )
                    &&& holds(report[k], ":packed_chunks="@ + text::decimal(c.layout.slices.len()))
                    &&& after[places[k]].score < u128::MAX ==> holds(
                        report[k],
                        ":penalty="@ + text::decimal((after[places[k]].score - c.score) as nat),
                    )
                }
        }),
{
    let count = candidates.len() as int;
    let report = selection::packed_penalty_report(candidates, count, total, options);
    let after = selection::after_packed_penalties(candidates, total, options);
    let places = lemma_packed_places(candidates, count, total, options);
    assert forall|i: int| 0 <= i < candidates.len() && #[trigger] after[i]
        != candidates[i] implies places.contains(i) by {
        assert(selection::packed_rival_of(candidates, candidates[i], total, options) is Some);
    }
    assert forall|k: int| #![trigger report[k]] 0 <= k < places.len() implies {
        let c = candidates[places[k]];
        &&& after[places[k]].score > c.score || c.score == u128::MAX
        &&& ("core.longform.auto.penalized:"@ + selection::label(c)).is_prefix_of(report[k])
        &&& holds(report[k], ":packed_chunks="@ + text::decimal(c.layout.slices.len()))
        &&& after[places[k]].score < u128::MAX ==> holds(
            report[k],
            ":penalty="@ + text::decimal((after[places[k]].score - c.score) as nat),
        )
    } by {
        let i = places[k];
        assert(places.contains(i));
        let c = candidates[i];
        let rival = candidates[selection::packed_rival_of(candidates, c, total, options)->0];
        let l0 = "core.longform.auto.penalized:"@ + selection::label(c);
        assert(l0 =~= l0.subrange(0, l0.len() as int));
        lemma_goes_on(l0, ":identity_chunks="@, rival.layout.slices.len());
        let l1 = l0 + ":identity_chunks="@ + text::decimal(rival.layout.slices.len());
        lemma_goes_on(l1, ":packed_chunks="@, c.layout.slices.len());
        let l2 = l1 + ":packed_chunks="@ + text::decimal(c.layout.slices.len());
        lemma_goes_on(l2, ":penalty="@, selection::lift(rival, c) as nat);
        let l3 = l2 + ":penalty="@ + text::decimal(selection::lift(rival, c) as nat);
        lemma_goes_on(
            l3,
            ":threshold="@,
            selection::packed_threshold(rival, c, total, options) as nat,
        );
        assert(after[i] == selection::penalized(c, selection::lift(rival, c)));
    }
    places
}

/// Every candidate that is charged for voice activity is reported, in order, with its name, its
/// slices, and what it takes to come out behind its rival; no other candidate is.
pub proof fn law_charged_voice_activity_is_reported(
    candidates: Seq<Candidate>,
    total: int,
    options: LongFormOptions,
) -> (places: Seq<int>)
    ensures
        ({
            let report = selection::vad_penalty_report(
                candidates,
                candidates.len() as int,
                total,
                options,
            );
            let after = selection::after_vad_penalties(candidates, total, options);
            &&& are_places(places, candidates.len() as int)
            &&& report.len() == places.len()
            &&& forall|i: int|
                0 <= i < candidates.len() && #[trigger] after[i] != candidates[i]
                    ==> places.contains(i)
            &&& forall|k: int|
                #![trigger report[k]]
                0 <= k < places.len() ==> {
                    let c = candidates[places[k]];
                    &&& after[places[k]].score > c.score || c.score == u128::MAX
                    &&& ("core.longform.auto.penalized:"@ + selection::label(c)).is_prefix_of(
                        report[k],
                    )
                    &&& holds(
                        report[k],
                        ":marginal_vad_savings_below_threshold:same_chunks="@ + text::decimal(
                            c.layout.slices.len(),
                        ),
                    )
                    &&& holds(
                        report[k],
                        ":threshold="@ + text::decimal(
                            selection::vad_threshold(total, options) as nat,
                        ),
                    )
                    &&& after[places[k]].score < u128::MAX ==> holds(
                        report[k],
                        ":penalty="@ + text::decimal((after[places[k]].score - c.score) as nat),
                    )
                }
        }),
{
    let count = candidates.len() as int;
    let report = selection::vad_penalty_report(candidates, count, total, options);
    let after = selection::after_vad_penalties(candidates, total, options);
    let places = lemma_vad_places(candidates, count, total, options);
    assert forall|i: int| 0 <= i < candidates.len() && #[trigger] after[i]
        != candidates[i] implies places.contains(i) by {
        assert(selection::vad_rival_of(candidates, candidates[i], total, options) is Some);
    }
    assert forall|k: int| #![trigger report[k]] 0 <= k < places.len() implies {
        let c = candidates[places[k]];
        &&& after[places[k]].score > c.score || c.score == u128::MAX
        &&& ("core.longform.auto.penalized:"@ + selection::label(c)).is_prefix_of(report[k])
        &&& holds(
            report[k],
            ":marginal_vad_savings_below_threshold:same_chunks="@ + text::decimal(
                c.layout.slices.len(),
            ),
        )
        &&& holds(
            report[k],
            ":threshold="@ + text::decimal(selection::vad_threshold(total, options) as nat),
        )
        &&& after[places[k]].score < u128::MAX ==> holds(
            report[k],
            ":penalty="@ + text::decimal((after[places[k]].score - c.score) as nat),
        )
    } by {
        let i = places[k];
        assert(places.contains(i));
        let c = candidates[i];
        let rival = candidates[selection::vad_rival_of(candidates, c, total, options)->0];
        let l0 = "core.longform.auto.penalized:"@ + selection::label(c);
        assert(l0 =~= l0.subrange(0, l0.len() as int));
        let name = ":marginal_vad_savings_below_threshold:same_chunks="@;
        lemma_goes_on(l0, name, c.layout.slices.len());
        let l1 = l0 + name + text::decimal(c.layout.slices.len());
        lemma_goes_on(l1, ":penalty="@, selection::lift(rival, c) as nat);
        let l2 = l1 + ":penalty="@ + text::decimal(selection::lift(rival, c) as nat);
        lemma_goes_on(l2, ":threshold="@, selection::vad_threshold(total, options) as nat);
        assert(after[i] == selection::penalized(c, selection::lift(rival, c)));
    }
    places
}

/// Every candidate that is credited for its boundaries is reported, in order, with its name and
/// what its score falls by; no other candidate is.
pub proof fn law_credits_are_reported(
    candidates: Seq<Candidate>,
    rate: int,
    options: LongFormOptions,
) -> (places: Seq<int>)
    ensures
        ({
            let report = selection::credit_report(
                candidates,
                candidates.len() as int,
                rate,
                options,
            );
            let after = selection::after_credits(candidates, rate, options);
            &&& are_places(places, candidates.len() as int)
            &&& report.len() == places.len()
            &&& forall|i: int|
                0 <= i < candidates.len() && #[trigger] after[i] != candidates[i]
                    ==> places.contains(i)
            &&& forall|k: int|
                #![trigger report[k]]
                0 <= k < places.len() ==> {
                    let c = candidates[places[k]];
                    &&& after[places[k]].score < c.score || c.score == 0
                    &&& ("core.longform.auto.rewarded:"@ + selection::label(c)).is_prefix_of(
                        report[k],
                    )
                    &&& holds(
                        report[k],
                        ":material_boundary_gain:same_chunks="@ + text::decimal(
                            c.layout.slices.len(),
                        ),
                    )
                    &&& holds(
                        report[k],
                        ":threshold="@ + text::decimal(
                            selection::gain_threshold(rate, options) as nat,
                        ),
                    )
                    &&& after[places[k]].score > 0 ==> holds(
                        report[k],
                        ":credit="@ + text::decimal((c.score - after[places[k]].score) as nat),
                    )
                }
        }),
{
    let count = candidates.len() as int;
    let report = selection::credit_report(candidates, count, rate, options);
    let after = selection::after_credits(candidates, rate, options);
    let places = lemma_credit_places(candidates, count, rate, options);
    assert forall|i: int| 0 <= i < candidates.len() && #[trigger] after[i]
        != candidates[i] implies places.contains(i) by {
        assert(selection::credit_of(candidates, candidates[i], rate, options) > 0);
    }
    assert forall|k: int| #![trigger report[k]] 0 <= k < places.len() implies {
        let c = candidates[places[k]];
        &&& after[places[k]].score < c.score || c.score == 0
        &&& ("core.longform.auto.rewarded:"@ + selection::label(c)).is_prefix_of(report[k])
        &&& holds(
            report[k],
            ":material_boundary_gain:same_chunks="@ + text::decimal(c.layout.slices.len()),
        )
        &&& holds(
            report[k],
            ":threshold="@ + text::decimal(selection::gain_threshold(rate, options) as nat),
        )
        &&& after[places[k]].score > 0 ==> holds(
            report[k],
            ":credit="@ + text::decimal((c.score - after[places[k]].score) as nat),
        )
    } by {
        let i = places[k];
        assert(places.contains(i));
        let c = candidates[i];
        let credit = selection::credit_of(candidates, c, rate, options);
        let l0 = "core.longform.auto.rewarded:"@ + selection::label(c);
        assert(l0 =~= l0.subrange(0, l0.len() as int));
        let name = ":material_boundary_gain:same_chunks="@;
        lemma_goes_on(l0, name, c.layout.slices.len());
        let l1 = l0 + name + text::decimal(c.layout.slices.len());
        lemma_goes_on(l1, ":credit="@, credit as nat);
        let l2 = l1 + ":credit="@ + text::decimal(credit as nat);
        lemma_goes_on(l2, ":threshold="@, selection::gain_threshold(rate, options) as nat);
        assert(after[i] == selection::rewarded(c, credit));
    }
    places
}

/// Every candidate that the coverage rule leaves out is reported, in order, with its name and
/// the evidence on the first audible window that it drops; no other candidate is.
pub proof fn law_disqualified_candidates_are_reported(
    candidates: Seq<Candidate>,
    acoustics: Acoustics,
) -> (places: Seq<int>)
    requires
        exists|i: int|
            0 <= i < candidates.len() && selection::audible_drop(
                #[trigger] candidates[i],
                acoustics,
            ) is None,
    ensures
        ({
            let report = selection::coverage_report(candidates, acoustics);
            &&& are_places(places, candidates.len() as int)
            &&& report.len() == places.len()
            &&& forall|i: int|
                0 <= i < candidates.len() ==> (places.contains(i) <==> (
                #[trigger] selection::audible_drop(candidates[i], acoustics)) is Some)
            &&& forall|k: int|
                #![trigger report[k]]
                0 <= k < places.len() ==> {
                    let c = candidates[places[k]];
                    &&& ("core.longform.auto.disqualified:"@ + selection::label(c)).is_prefix_of(
                        report[k],
                    )
                    &&& (acoustics.evidence)(
                        c.layout.kept(acoustics.sample_count),
                        c.layout.dropped(acoustics.sample_count),
                        selection::audible_drop(c, acoustics)->0,
                    ).is_suffix_of(report[k])
                }
        }),
{
    let count = candidates.len() as int;
    let report = selection::coverage_report(candidates, acoustics);
    let places = lemma_disqualified_places(candidates, count, acoustics);
    if candidates.len() == 1 {
        if places.len() > 0 {
            assert(places.contains(places[0]));
        }
    }
    assert forall|k: int| #![trigger report[k]] 0 <= k < places.len() implies {
        let c = candidates[places[k]];
        &&& ("core.longform.auto.disqualified:"@ + selection::label(c)).is_prefix_of(report[k])
        &&& (acoustics.evidence)(
            c.layout.kept(acoustics.sample_count),
            c.layout.dropped(acoustics.sample_count),
            selection::audible_drop(c, acoustics)->0,
        ).is_suffix_of(report[k])
    } by {
        let c = candidates[places[k]];
        let window = selection::audible_drop(c, acoustics)->0;
        let line = selection::disqualified_line(c, window, acoustics);
        let named = "core.longform.auto.disqualified:"@ + selection::label(c);
        let evidence = (acoustics.evidence)(
            c.layout.kept(acoustics.sample_count),
            c.layout.dropped(acoustics.sample_count),
            window,
        );
        assert(selection::disqualified_report(candidates, count, acoustics)[k] == line);
        assert(report[k] == line);
        assert(named =~= line.subrange(0, named.len() as int));
        assert(evidence =~= line.subrange(line.len() - evidence.len(), line.len() as int));
    }
    places
}

/// What is left of a list stands in the order that it stood in.
proof fn lemma_unflagged_places<A>(items: Seq<A>, flags: Seq<bool>, count: int) -> (places: Seq<
    int,
>)
    requires
        0 <= count <= items.len(),
        items.len() == flags.len(),
    ensures
        are_places(places, count),
        selection::unflagged(items, flags, count).len() == places.len(),
        forall|i: int| 0 <= i < count ==> (places.contains(i) <==> !(#[trigger] flags[i])),
        forall|k: int|
            0 <= k < places.len() ==> #[trigger] selection::unflagged(items, flags, count)[k]
                == items[places[k]],
    decreases count,
{
    if count <= 0 {
        Seq::empty()
    } else {
        let before = lemma_unflagged_places(items, flags, count - 1);
        if flags[count - 1] {
            assert forall|i: int| 0 <= i < count implies (before.contains(i) <==> !(
            #[trigger] flags[i])) by {
                if i == count - 1 && before.contains(i) {
                    let k = choose|k: int| 0 <= k < before.len() && before[k] == i;
                    assert(before[k] < count - 1);
                }
            }
            before
        } else {
            let places = before.push(count - 1);
            assert forall|i: int| 0 <= i < count implies (places.contains(i) <==> !(
            #[trigger] flags[i])) by {
                if i < count - 1 && before.contains(i) {
                    let k = choose|k: int| 0 <= k < before.len() && before[k] == i;
                    assert(places[k] == i);
                }
                if i < count - 1 && places.contains(i) {
                    let k = choose|k: int| 0 <= k < places.len() && places[k] == i;
                    assert(before[k] == i);
                }
                if i == count - 1 {
                    assert(places[before.len() as int] == i);
                }
            }
            assert forall|k: int| 0 <= k < places.len() implies #[trigger] selection::unflagged(
                items,
                flags,
                count,
            )[k] == items[places[k]] by {
                if k < before.len() {
                    assert(selection::unflagged(items, flags, count - 1)[k]
                        == selection::unflagged(items, flags, count)[k]);
                }
            }
            places
        }
    }
}

/// Pruning keeps candidates in their order, each as often as it stood there.
pub proof fn law_pruning_keeps_the_order(candidates: Seq<Candidate>) -> (places: Seq<int>)
    ensures
        are_places(places, candidates.len() as int),
        selection::pruned(candidates).len() == places.len(),
        forall|k: int|
            0 <= k < places.len() ==> #[trigger] selection::pruned(candidates)[k]
                == candidates[places[k]],
        forall|i: int|
            0 <= i < candidates.len() ==> (places.contains(i) <==> selection::pruned(
                candidates,
            ).contains(#[trigger] candidates[i])),
{
    let flags = Seq::new(
        candidates.len(),
        |i: int| selection::is_dominated(candidates, candidates[i]),
    );
    let places = lemma_unflagged_places(candidates, flags, candidates.len() as int);
    assert forall|i: int| 0 <= i < candidates.len() implies (places.contains(i)
        <==> selection::pruned(candidates).contains(#[trigger] candidates[i])) by {
        selection::law_pruning_keeps_the_undominated(candidates, candidates[i]);
        assert(flags[i] == selection::is_dominated(candidates, candidates[i]));
        assert(candidates.contains(candidates[i]));
    }
    places
}

/// The coverage rule keeps candidates in their order, each as often as it stood there.
pub proof fn law_coverage_keeps_the_order(candidates: Seq<Candidate>, acoustics: Acoustics) -> (
    places: Seq<int>)
    requires
        exists|i: int|
            0 <= i < candidates.len() && selection::audible_drop(
                #[trigger] candidates[i],
                acoustics,
            ) is None,
    ensures
        are_places(places, candidates.len() as int),
        selection::covering(candidates, acoustics).len() == places.len(),
        forall|k: int|
            0 <= k < places.len() ==> #[trigger] selection::covering(candidates, acoustics)[k]
                == candidates[places[k]],
        forall|i: int|
            0 <= i < candidates.len() ==> (places.contains(i) <==> (
            #[trigger] selection::audible_drop(candidates[i], acoustics)) is None),
{
    let flags = Seq::new(
        candidates.len(),
        |i: int| selection::audible_drop(candidates[i], acoustics) is Some,
    );
    let places = lemma_unflagged_places(candidates, flags, candidates.len() as int);
    assert forall|i: int| 0 <= i < candidates.len() implies (places.contains(i) <==> (
    #[trigger] selection::audible_drop(candidates[i], acoustics)) is None) by {
        assert(flags[i] == (selection::audible_drop(candidates[i], acoustics) is Some));
    }
    if candidates.len() == 1 {
        assert(!flags[0]);
        assert(places.contains(0));
        let k = choose|k: int| 0 <= k < places.len() && places[k] == 0;
        if places.len() > 1 {
            assert(places[0] < places[1] < 1);
        }
        assert(places.len() == 1);
        assert(places[0] == 0);
    }
    places
}

/// What is reported with a layout that was chosen: who was left out, what was charged for
/// packing, what was charged for voice activity, what was rewarded, and at last the choice
/// itself, the first of which is the layout that was taken.
pub proof fn law_the_report_follows_the_choice(
    candidates: Seq<Candidate>,
    rate: int,
    options: LongFormOptions,
    acoustics: Acoustics,
)
    requires
        selection::covering(selection::pruned(candidates), acoustics).len() > 0,
    ensures
        ({
            let total = acoustics.sample_count;
            let pruned = selection::pruned(candidates);
            let left = selection::covering(pruned, acoustics);
            let packed = selection::after_packed_penalties(left, total, options);
            let charged = selection::after_vad_penalties(packed, total, options);
            let ranked = selection::in_preference(
                selection::after_credits(charged, rate, options),
            );
            let count = left.len() as int;
            let out = selection::coverage_report(pruned, acoustics);
            let packing = selection::packed_penalty_report(left, count, total, options);
            let activity = selection::vad_penalty_report(packed, count, total, options);
            let credits = selection::credit_report(charged, count, rate, options);
            let choice = selection::selection_report(ranked);
            let taken = planner::chosen(candidates, rate, options, acoustics);
            let a = out.len() as int;
            let b = a + packing.len();
            let c = b + activity.len();
            let d = c + credits.len();
            let whole = taken.provenance;
            &&& whole.len() == d + choice.len()
            &&& whole.subrange(0, a) == out
            &&& whole.subrange(a, b) == packing
            &&& whole.subrange(b, c) == activity
            &&& whole.subrange(c, d) == credits
            &&& whole.subrange(d, whole.len() as int) == choice
            &&& taken.slices == ranked[0].layout.slices
            &&& tells_costs(choice[0], "core.longform.auto.selected:"@, ranked[0])
        }),
{
    let total = acoustics.sample_count;
    let pruned = selection::pruned(candidates);
    let left = selection::covering(pruned, acoustics);
    let packed = selection::after_packed_penalties(left, total, options);
    let charged = selection::after_vad_penalties(packed, total, options);
    let priced = selection::after_credits(charged, rate, options);
    let ranked = selection::in_preference(priced);
    let count = left.len() as int;
    let out = selection::coverage_report(pruned, acoustics);
    let packing = selection::packed_penalty_report(left, count, total, options);
    let activity = selection::vad_penalty_report(packed, count, total, options);
    let credits = selection::credit_report(charged, count, rate, options);
    let choice = selection::selection_report(ranked);
    let whole = planner::chosen(candidates, rate, options, acoustics).provenance;
    let a = out.len() as int;
    let b = a + packing.len();
    let c = b + activity.len();
    let d = c + credits.len();
    selection::law_selection_is_the_best(priced);
    law_the_report_tells_what_was_chosen(ranked);
    assert(whole == out + packing + activity + credits + choice);
    assert(whole.subrange(0, a) =~= out);
    assert(whole.subrange(a, b) =~= packing);
    assert(whole.subrange(b, c) =~= activity);
    assert(whole.subrange(c, d) =~= credits);
    assert(whole.subrange(d, whole.len() as int) =~= choice);
}

} // verus!
