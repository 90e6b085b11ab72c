//! A stable sort by an order that the caller gives.

use vstd::prelude::*;

verus! {

/// Where `x` goes in the first `p` items of `s`: behind every item that it does not
/// come before.
pub open spec fn place<A>(s: Seq<A>, x: A, before: spec_fn(A, A) -> bool, p: int) -> int
    decreases p,
{
    if p <= 0 || !before(x, s[p - 1]) {
        p
    } else {
        place(s, x, before, p - 1)
    }
}

/// `s` with `x` put in its place.
pub open spec fn put_in<A>(s: Seq<A>, x: A, before: spec_fn(A, A) -> bool) -> Seq<A> {
    s.insert(place(s, x, before, s.len() as int), x)
}

/// `s` in order, items of equal rank as they came.
pub open spec fn stably_sorted<A>(s: Seq<A>, before: spec_fn(A, A) -> bool) -> Seq<A>
    decreases s.len(),
{
    if s.len() == 0 {
        s
    } else {
        put_in(stably_sorted(s.drop_last(), before), s.last(), before)
    }
}

/// Whether no item comes before an earlier one.
pub open spec fn in_order<A>(s: Seq<A>, before: spec_fn(A, A) -> bool) -> bool {
    forall|i: int, j: int| 0 <= i < j < s.len() ==> !before(#[trigger] s[j], #[trigger] s[i])
}

/// Whether `before` compares ranks: it is transitive, and so is being of no lower rank.
pub open spec fn compares_ranks<A>(before: spec_fn(A, A) -> bool) -> bool {
    &&& forall|a: A, b: A| #[trigger] before(a, b) ==> !before(b, a)
    &&& forall|a: A, b: A, c: A| !#[trigger] before(b, a) && !#[trigger] before(c, b) ==> !before(c, a)
}

/// The place of an item is right behind the last item that it does not come before.
pub proof fn lemma_place<A>(s: Seq<A>, x: A, before: spec_fn(A, A) -> bool, p: int)
    requires
        0 <= p <= s.len(),
    ensures
        0 <= place(s, x, before, p) <= p,
        forall|i: int| place(s, x, before, p) <= i < p ==> before(x, #[trigger] s[i]),
        place(s, x, before, p) > 0 ==> !before(x, s[place(s, x, before, p) - 1]),
    decreases p,
{
    if p > 0 && before(x, s[p - 1]) {
        lemma_place(s, x, before, p - 1);
    }
}

/// The sorted sequence holds the same items, each as often, in order.
pub proof fn law_sorting_orders_the_same_items<A>(s: Seq<A>, before: spec_fn(A, A) -> bool)
    requires
        compares_ranks(before),
    ensures
        stably_sorted(s, before).len() == s.len(),
        stably_sorted(s, before).to_multiset() == s.to_multiset(),
        in_order(stably_sorted(s, before), before),
    decreases s.len(),
{
    broadcast use vstd::seq_lib::group_to_multiset_ensures;

    if s.len() > 0 {
        let rest = stably_sorted(s.drop_last(), before);
        let x = s.last();
        law_sorting_orders_the_same_items(s.drop_last(), before);
        lemma_place(rest, x, before, rest.len() as int);
        let at = place(rest, x, before, rest.len() as int);
        let sorted = put_in(rest, x, before);
        assert(s =~= s.drop_last().push(x));
        assert(sorted.to_multiset() == rest.to_multiset().insert(x));
        assert forall|i: int, j: int| 0 <= i < j < sorted.len() implies !before(
            #[trigger] sorted[j],
            #[trigger] sorted[i],
        ) by {
            if j < at {
                assert(sorted[i] == rest[i] && sorted[j] == rest[j]);
            } else if j == at {
                assert(sorted[i] == rest[i]);
                if i < at - 1 {
                    assert(!before(rest[at - 1], rest[i]));
                }
            } else if i < at {
                assert(sorted[i] == rest[i] && sorted[j] == rest[j - 1]);
            } else if i == at {
                assert(sorted[j] == rest[j - 1]);
                assert(before(x, rest[j - 1]));
            } else {
                assert(sorted[i] == rest[i - 1] && sorted[j] == rest[j - 1]);
            }
        }
    }
}

/// Sorting is stable: items that are in order already stay as they are, equals among them
/// included.
pub proof fn law_sorting_keeps_what_is_in_order<A>(s: Seq<A>, before: spec_fn(A, A) -> bool)
    requires
        in_order(s, before),
    ensures
        stably_sorted(s, before) == s,
    decreases s.len(),
{
    if s.len() > 0 {
        let rest = s.drop_last();
        assert forall|i: int, j: int| 0 <= i < j < rest.len() implies !before(
            #[trigger] rest[j],
            #[trigger] rest[i],
        ) by {
            assert(!before(s[j], s[i]));
        }
        law_sorting_keeps_what_is_in_order(rest, before);
        if rest.len() > 0 {
            assert(!before(s[s.len() - 1], s[s.len() - 2]));
        }
        assert(put_in(rest, s.last(), before) =~= s);
    }
}

/// Sorts by insertion from the right, so that an input already in order costs one
/// comparison an item.
pub(crate) fn sort_stably<A, F: Fn(&A, &A) -> bool>(
    input: Vec<A>,
    comes_before: &F,
    Ghost(before): Ghost<spec_fn(A, A) -> bool>,
) -> (sorted: Vec<A>)
    requires
        forall|a: A, b: A| #[trigger] call_requires(*comes_before, (&a, &b)),
        forall|a: A, b: A, r: bool|
            #[trigger] call_ensures(*comes_before, (&a, &b), r) ==> r == before(a, b),
    ensures
        sorted@ == stably_sorted(input@, before),
{
    let ghost items = input@;
    let mut sorted: Vec<A> = Vec::new();
    for item in it: input
        invariant
            forall|a: A, b: A| #[trigger] call_requires(*comes_before, (&a, &b)),
            forall|a: A, b: A, r: bool|
                #[trigger] call_ensures(*comes_before, (&a, &b), r) ==> r == before(a, b),
            it.seq() == items,
            sorted@ == stably_sorted(items.take(it.index()), before),
            sorted.len() == it.index(),
    {
        let mut at: usize = sorted.len();
        while at > 0 && comes_before(&item, &sorted[at - 1])
            invariant
                forall|a: A, b: A| #[trigger] call_requires(*comes_before, (&a, &b)),
                forall|a: A, b: A, r: bool|
                    #[trigger] call_ensures(*comes_before, (&a, &b), r) ==> r == before(a, b),
                at <= sorted.len(),
                place(sorted@, item, before, sorted.len() as int) == place(
                    sorted@,
                    item,
                    before,
                    at as int,
                ),
            decreases at,
        {
            at = at - 1;
        }
        sorted.insert(at, item);
        proof {
            let through = items.take(it.index() + 1);
            assert(through.drop_last() =~= items.take(it.index()));
            assert(through.last() == item);
        }
    }
    assert(items.take(items.len() as int) =~= items);
    sorted
}

/// Sorting keeps equals in the order that they came in: every item of the sorted list stands
/// for one place of the list, no two for the same, and of two items that need not change
/// places the one that came first comes first.
pub proof fn law_equals_stay_in_their_order<A>(s: Seq<A>, before: spec_fn(A, A) -> bool) -> (places:
    Seq<int>)
    ensures
        places.len() == s.len(),
        stably_sorted(s, before).len() == s.len(),
        forall|i: int| 0 <= i < s.len() ==> 0 <= #[trigger] places[i] < s.len(),
        forall|i: int|
            0 <= i < s.len() ==> #[trigger] stably_sorted(s, before)[i] == s[places[i]],
        forall|i: int, j: int|
            0 <= i < j < s.len() ==> #[trigger] places[i] != #[trigger] places[j],
        forall|i: int, j: int|
            #![trigger places[i], places[j]]
            0 <= i < j < s.len() && !before(s[places[i]], s[places[j]]) ==> places[i] < places[j],
    decreases s.len(),
{
    if s.len() == 0 {
        Seq::empty()
    } else {
        let rest = s.drop_last();
        let x = s.last();
        let earlier = law_equals_stay_in_their_order(rest, before);
        let sorted = stably_sorted(rest, before);
        let at = place(sorted, x, before, sorted.len() as int);
        lemma_comes_before_the_rest(sorted, x, before, sorted.len() as int);
        let places = earlier.insert(at, s.len() - 1);
        let after = stably_sorted(s, before);
        assert(after == sorted.insert(at, x));
        assert forall|i: int| 0 <= i < s.len() implies 0 <= #[trigger] places[i] < s.len() by {
            if i < at {
                assert(places[i] == earlier[i]);
            } else if i > at {
                assert(places[i] == earlier[i - 1]);
            }
        }
        assert forall|i: int| 0 <= i < s.len() implies #[trigger] stably_sorted(s, before)[i]
            == s[places[i]] by {
            if i < at {
                assert(after[i] == sorted[i]);
                assert(places[i] == earlier[i]);
            } else if i > at {
                assert(after[i] == sorted[i - 1]);
                assert(places[i] == earlier[i - 1]);
            }
        }
        assert forall|i: int, j: int| 0 <= i < j < s.len() implies #[trigger] places[i]
            != #[trigger] places[j] by {
            let a = if i < at {
                i
            } else {
                i - 1
            };
            let b = if j < at {
                j
            } else {
                j - 1
            };
            if i != at {
                assert(places[i] == earlier[a]);
            }
            if j != at {
                assert(places[j] == earlier[b]);
            }
        }
        assert forall|i: int, j: int|
            #![trigger places[i], places[j]]
            0 <= i < j < s.len() && !before(s[places[i]], s[places[j]]) implies places[i]
            < places[j] by {
            if i == at {
                assert(places[j] == earlier[j - 1]);
                assert(sorted[j - 1] == rest[earlier[j - 1]]);
                assert(before(x, sorted[j - 1]));
            } else if j == at {
                assert(places[i] == earlier[i]);
            } else {
                let a = if i < at {
                    i
                } else {
                    i - 1
                };
                let b = if j < at {
                    j
                } else {
                    j - 1
                };
                assert(places[i] == earlier[a]);
                assert(places[j] == earlier[b]);
                assert(s[earlier[a]] == rest[earlier[a]]);
                assert(s[earlier[b]] == rest[earlier[b]]);
            }
        }
        places
    }
}

/// An item is put before all that it comes before, as far as they stand at the end.
proof fn lemma_comes_before_the_rest<A>(s: Seq<A>, x: A, before: spec_fn(A, A) -> bool, p: int)
    requires
        0 <= p <= s.len(),
        forall|q: int| p <= q < s.len() ==> before(x, #[trigger] s[q]),
    ensures
        0 <= place(s, x, before, p) <= p,
        forall|q: int| place(s, x, before, p) <= q < s.len() ==> before(x, #[trigger] s[q]),
    decreases p,
{
    if p > 0 && before(x, s[p - 1]) {
        lemma_comes_before_the_rest(s, x, before, p - 1);
    }
}

} // verus!
