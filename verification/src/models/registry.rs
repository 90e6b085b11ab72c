//! What is registered under a name.

use vstd::prelude::*;

use crate::text;
use crate::text::{same_text, text_comes_before};

verus! {

/// Values by name, in the order of the names; a name holds one value.
pub struct Registry<V> {
    entries: Vec<(&'static str, V)>,
}

/// Whether entry `i` has the name.
pub open spec fn named<V>(entries: Seq<(&'static str, V)>, i: int, name: Seq<char>) -> bool {
    0 <= i < entries.len() && entries[i].0@ == name
}

impl<V> View for Registry<V> {
    type V = Map<Seq<char>, V>;

    closed spec fn view(&self) -> Map<Seq<char>, V> {
        Map::new(
            |name: Seq<char>| exists|i: int| #[trigger] named(self.entries@, i, name),
            |name: Seq<char>| self.entries@[choose|i: int| #[trigger] named(self.entries@, i, name)].1,
        )
    }
}

impl<V> Registry<V> {
    #[verifier::type_invariant]
    spec fn names_ascend(self) -> bool {
        ascending(self.entries@)
    }

    /// Number of names.
    pub closed spec fn size(self) -> nat {
        self.entries@.len()
    }

    /// The value in a place.
    pub closed spec fn at(self, place: int) -> V {
        self.entries@[place].1
    }

    /// The name in a place.
    pub closed spec fn name_at(self, place: int) -> Seq<char> {
        self.entries@[place].0@
    }

    /// Whether the places follow the order of the names, each of which holds what stands in
    /// its place.
    pub open spec fn in_name_order(self) -> bool {
        &&& forall|i: int, j: int|
            0 <= i < j < self.size() ==> text::comes_before(
                #[trigger] self.name_at(i),
                #[trigger] self.name_at(j),
            )
        &&& forall|i: int|
            0 <= i < self.size() ==> self@.contains_key(#[trigger] self.name_at(i))
                && self@[self.name_at(i)] == self.at(i)
    }

    pub fn empty() -> (registry: Self)
        ensures
            registry@ == Map::<Seq<char>, V>::empty(),
            registry.size() == 0,
    {
        let registry = Registry { entries: Vec::new() };
        assert(registry@ =~= Map::<Seq<char>, V>::empty());
        registry
    }

    /// Registers a value, in place of the one that the name held.
    pub fn with(self, name: &'static str, value: V) -> (registry: Self)
        ensures
            registry@ == self@.insert(name@, value),
    {
        proof {
            use_type_invariant(&self);
        }
        let ghost before = self.entries@;
        let mut entries: Vec<(&'static str, V)> = self.entries;
        let mut at: usize = 0;
        while at < entries.len() && text_comes_before(entries[at].0, name)
            invariant
                entries@ == before,
                at <= entries.len(),
                forall|i: int|
                    0 <= i < at ==> text::comes_before((#[trigger] before[i]).0@, name@),
            ensures
                entries@ == before,
                at <= entries.len(),
                forall|i: int|
                    0 <= i < at ==> text::comes_before((#[trigger] before[i]).0@, name@),
                at < entries.len() ==> !text::comes_before(before[at as int].0@, name@),
            decreases entries.len() - at,
        {
            at = at + 1;
        }
        if at < entries.len() && same_text(entries[at].0, name) {
            entries.set(at, (name, value));
            proof {
                assert(entries@ =~= before.update(at as int, (name, value)));
                assert(ascending(entries@));
            }
            let registry = Registry { entries };
            proof {
                lemma_replaced(self, registry, at as int, name, value);
            }
            return registry;
        }
        proof {
            lemma_opened(before, at as int, name@);
        }
        entries.insert(at, (name, value));
        proof {
            assert(entries@ =~= before.insert(at as int, (name, value)));
            lemma_inserted_ascends(before, at as int, name, value);
        }
        let registry = Registry { entries };
        proof {
            lemma_added(self, registry, at as int, name, value);
        }
        registry
    }

    /// The value that a name holds.
    pub fn get(&self, name: &str) -> (value: Option<&V>)
        ensures
            match value {
                Some(found) => self@.contains_key(name@) && *found == self@[name@],
                None => !self@.contains_key(name@),
            },
    {
        proof {
            use_type_invariant(self);
        }
        let mut at: usize = 0;
        while at < self.entries.len()
            invariant
                at <= self.entries.len(),
                self.names_ascend(),
                forall|i: int| 0 <= i < at ==> (#[trigger] self.entries@[i]).0@ != name@,
            decreases self.entries.len() - at,
        {
            if same_text(self.entries[at].0, name) {
                proof {
                    assert(named(self.entries@, at as int, name@));
                    let i = choose|i: int| #[trigger] named(self.entries@, i, name@);
                    assert(named(self.entries@, i, name@));
                    lemma_one_place(self.entries@, i, at as int);
                }
                return Some(&self.entries[at].1);
            }
            at = at + 1;
        }
        None
    }

    /// Number of names.
    pub fn len(&self) -> (count: usize)
        ensures
            count == self.size(),
            self.in_name_order(),
    {
        proof {
            use_type_invariant(self);
            assert forall|i: int| 0 <= i < self.size() implies self@.contains_key(
                #[trigger] self.name_at(i),
            ) && self@[self.name_at(i)] == self.at(i) by {
                let name = self.name_at(i);
                assert(named(self.entries@, i, name));
                let j = choose|j: int| #[trigger] named(self.entries@, j, name);
                assert(named(self.entries@, j, name));
                lemma_one_place(self.entries@, i, j);
            }
        }
        self.entries.len()
    }

    /// The value in a place.
    pub fn value_at(&self, place: usize) -> (value: &V)
        requires
            place < self.size(),
        ensures
            *value == self.at(place as int),
    {
        &self.entries[place].1
    }
}

/// Every registered value stands in a place.
pub proof fn lemma_values_have_places<V>(registry: Registry<V>, name: Seq<char>) -> (place: int)
    requires
        registry@.contains_key(name),
    ensures
        0 <= place < registry.size(),
        registry.at(place) == registry@[name],
{
    choose|i: int| #[trigger] named(registry.entries@, i, name)
}

/// Whether entries come in the order of their names.
pub open spec fn ascending<V>(entries: Seq<(&'static str, V)>) -> bool {
    forall|i: int, j: int|
        0 <= i < j < entries.len() ==> text::comes_before(
            (#[trigger] entries[i]).0@,
            (#[trigger] entries[j]).0@,
        )
}

/// A name stands in one place.
proof fn lemma_one_place<V>(entries: Seq<(&'static str, V)>, i: int, j: int)
    requires
        ascending(entries),
        0 <= i < entries.len(),
        0 <= j < entries.len(),
        entries[i].0@ == entries[j].0@,
    ensures
        i == j,
{
    text::law_texts_are_in_order(entries[i].0@, entries[i].0@, Seq::empty());
}

/// A name that is held nowhere and comes behind those before its place comes before those
/// from there on.
proof fn lemma_opened<V>(entries: Seq<(&'static str, V)>, at: int, name: Seq<char>)
    requires
        ascending(entries),
        0 <= at <= entries.len(),
        at < entries.len() ==> !text::comes_before(entries[at].0@, name) && entries[at].0@ != name,
    ensures
        forall|i: int|
            at <= i < entries.len() ==> text::comes_before(name, (#[trigger] entries[i]).0@),
{
    if at < entries.len() {
        text::law_texts_are_in_order(entries[at].0@, name, Seq::empty());
        assert forall|i: int| at <= i < entries.len() implies text::comes_before(
            name,
            (#[trigger] entries[i]).0@,
        ) by {
            text::law_texts_are_in_order(name, entries[at].0@, entries[i].0@);
        }
    }
}

proof fn lemma_inserted_ascends<V>(
    entries: Seq<(&'static str, V)>,
    at: int,
    name: &'static str,
    value: V,
)
    requires
        ascending(entries),
        0 <= at <= entries.len(),
        forall|i: int| 0 <= i < at ==> text::comes_before((#[trigger] entries[i]).0@, name@),
        forall|i: int|
            at <= i < entries.len() ==> text::comes_before(name@, (#[trigger] entries[i]).0@),
    ensures
        ascending(entries.insert(at, (name, value))),
{
    let after = entries.insert(at, (name, value));
    assert forall|i: int, j: int| 0 <= i < j < after.len() implies text::comes_before(
        (#[trigger] after[i]).0@,
        (#[trigger] after[j]).0@,
    ) by {
        if i < at {
            assert(after[i] == entries[i]);
        } else if i > at {
            assert(after[i] == entries[i - 1]);
        }
        if j < at {
            assert(after[j] == entries[j]);
        } else if j > at {
            assert(after[j] == entries[j - 1]);
        }
    }
}

proof fn lemma_replaced<V>(
    before: Registry<V>,
    after: Registry<V>,
    at: int,
    name: &'static str,
    value: V,
)
    requires
        ascending(before.entries@),
        0 <= at < before.entries@.len(),
        before.entries@[at].0@ == name@,
        after.entries@ == before.entries@.update(at, (name, value)),
    ensures
        after@ =~= before@.insert(name@, value),
{
    let old_map = before@;
    let new_map = after@;
    assert forall|key: Seq<char>| new_map.contains_key(key) == old_map.insert(
        name@,
        value,
    ).contains_key(key) by {
        if exists|i: int| #[trigger] named(before.entries@, i, key) {
            let i = choose|i: int| #[trigger] named(before.entries@, i, key);
            assert(named(after.entries@, i, key));
        }
        if exists|i: int| #[trigger] named(after.entries@, i, key) {
            let i = choose|i: int| #[trigger] named(after.entries@, i, key);
            assert(named(before.entries@, i, key));
        }
        assert(named(after.entries@, at, name@));
    }
    assert forall|key: Seq<char>| new_map.contains_key(key) implies new_map[key]
        == old_map.insert(name@, value)[key] by {
        let i = choose|i: int| #[trigger] named(after.entries@, i, key);
        assert(named(after.entries@, i, key));
        assert(named(before.entries@, i, key));
        let j = choose|j: int| #[trigger] named(before.entries@, j, key);
        assert(named(before.entries@, j, key));
        lemma_one_place(before.entries@, i, j);
        if key == name@ {
            lemma_one_place(before.entries@, i, at);
        }
    }
}

proof fn lemma_added<V>(
    before: Registry<V>,
    after: Registry<V>,
    at: int,
    name: &'static str,
    value: V,
)
    requires
        ascending(before.entries@),
        0 <= at <= before.entries@.len(),
        after.entries@ == before.entries@.insert(at, (name, value)),
        ascending(after.entries@),
    ensures
        after@ =~= before@.insert(name@, value),
{
    let old_map = before@;
    let new_map = after@;
    let held = before.entries@;
    let holds = after.entries@;
    assert(holds[at] == (name, value));
    assert(named(holds, at, name@));
    assert forall|key: Seq<char>| new_map.contains_key(key) == old_map.insert(
        name@,
        value,
    ).contains_key(key) by {
        if exists|i: int| #[trigger] named(held, i, key) {
            let i = choose|i: int| #[trigger] named(held, i, key);
            assert(named(
                holds,
                if i < at {
                    i
                } else {
                    i + 1
                },
                key,
            ));
        }
        if exists|i: int| #[trigger] named(holds, i, key) {
            let i = choose|i: int| #[trigger] named(holds, i, key);
            if i != at {
                assert(named(
                    held,
                    if i < at {
                        i
                    } else {
                        i - 1
                    },
                    key,
                ));
            }
        }
    }
    assert forall|key: Seq<char>| new_map.contains_key(key) implies new_map[key]
        == old_map.insert(name@, value)[key] by {
        let i = choose|i: int| #[trigger] named(holds, i, key);
        assert(named(holds, i, key));
        if key == name@ {
            lemma_one_place(holds, i, at);
        } else {
            let from = if i < at {
                i
            } else {
                i - 1
            };
            assert(named(held, from, key));
            let j = choose|j: int| #[trigger] named(held, j, key);
            assert(named(held, j, key));
            lemma_one_place(held, from, j);
        }
    }
}

} // verus!
