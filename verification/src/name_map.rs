//! A map from file names that remembers the order in which the names came.

use vstd::hash_map::StringHashMap;
use vstd::prelude::*;

verus! {

/// A map from names to values. The names are found by hashing and walked in the order in which
/// they were first inserted.
#[verifier::reject_recursive_types(V)]
pub struct NameMap<V> {
    index: StringHashMap<usize>,
    entries: Vec<(String, V)>,
}

impl<V> View for NameMap<V> {
    type V = Map<Seq<char>, V>;

    closed spec fn view(&self) -> Map<Seq<char>, V> {
        Map::new(
            |name: Seq<char>| self.index@.contains_key(name),
            |name: Seq<char>| self.entries@[self.index@[name] as int].1,
        )
    }
}

impl<V> NameMap<V> {
    /// Whether the index points at the entries and at nothing else.
    pub closed spec fn wf(self) -> bool {
        &&& forall|slot: int|
            0 <= slot < self.entries@.len() ==> self.index@.contains_key(
                (#[trigger] self.entries@[slot]).0@,
            ) && self.index@[self.entries@[slot].0@] == slot
        &&& forall|name: Seq<char>| #[trigger]
            self.index@.contains_key(name) ==> self.index@[name] < self.entries@.len()
                && self.entries@[self.index@[name] as int].0@ == name
    }

    /// The names with their values, in the order in which the names came.
    pub closed spec fn entries(self) -> Seq<(String, V)> {
        self.entries@
    }

    /// Each name of the map stands once among the entries, with its value.
    pub proof fn lemma_entries(self)
        requires
            self.wf(),
        ensures
            forall|slot: int|
                0 <= slot < self.entries().len() ==> self@.contains_key(
                    (#[trigger] self.entries()[slot]).0@,
                ) && self@[self.entries()[slot].0@] == self.entries()[slot].1,
            forall|name: Seq<char>| #[trigger]
                self@.contains_key(name) ==> exists|slot: int|
                    0 <= slot < self.entries().len() && (#[trigger] self.entries()[slot]).0@
                        == name,
            forall|a: int, b: int|
                0 <= a < self.entries().len() && 0 <= b < self.entries().len() && a != b ==> (
                #[trigger] self.entries()[a]).0@ != (#[trigger] self.entries()[b]).0@,
    {
        assert forall|name: Seq<char>| #[trigger] self@.contains_key(name) implies exists|slot: int|
            0 <= slot < self.entries().len() && (#[trigger] self.entries()[slot]).0@ == name by {
            assert(self.entries()[self.index@[name] as int].0@ == name);
        }
    }

    /// The empty map.
    pub fn new() -> (map: Self)
        ensures
            map.wf(),
            map@ == Map::<Seq<char>, V>::empty(),
            map.entries() == Seq::<(String, V)>::empty(),
    {
        let map = NameMap { index: StringHashMap::new(), entries: Vec::new() };
        assert(map@ =~= Map::<Seq<char>, V>::empty());
        map
    }

    /// The number of names.
    pub fn len(&self) -> (len: usize)
        requires
            self.wf(),
        ensures
            len == self.entries().len(),
            len == self@.len(),
    {
        proof {
            assert(self@.dom() =~= self.index@.dom());
        }
        assert(self.entries@.len() == self.index@.dom().len()) by {
            self.lemma_len();
        }
        self.entries.len()
    }

    proof fn lemma_len(self)
        requires
            self.wf(),
        ensures
            self.entries@.len() == self.index@.dom().len(),
            self.index@.dom().finite(),
    {
        let names = self.entries@.map_values(|entry: (String, V)| entry.0@);
        assert(names.no_duplicates());
        names.unique_seq_to_set();
        assert(names.to_set() =~= self.index@.dom()) by {
            assert forall|name: Seq<char>| self.index@.contains_key(name) implies names.contains(
                name,
            ) by {
                assert(names[self.index@[name] as int] == name);
            }
        }
    }

    /// Where a name stands among the entries.
    pub fn position(&self, name: &str) -> (slot: Option<usize>)
        requires
            self.wf(),
        ensures
            match slot {
                Some(slot) => slot < self.entries().len() && self.entries()[slot as int].0@
                    == name@ && self@.contains_key(name@) && self@[name@]
                    == self.entries()[slot as int].1,
                None => !self@.contains_key(name@),
            },
    {
        match self.index.get(name) {
            Some(slot) => Some(*slot),
            None => None,
        }
    }

    /// The value of a name.
    pub fn get(&self, name: &str) -> (value: Option<&V>)
        requires
            self.wf(),
        ensures
            match value {
                Some(value) => self@.contains_key(name@) && *value == self@[name@],
                None => !self@.contains_key(name@),
            },
    {
        match self.position(name) {
            Some(slot) => Some(&self.entries[slot].1),
            None => None,
        }
    }

    /// The value in a slot, for writing.
    pub fn value_mut(&mut self, slot: usize) -> (value: &mut V)
        requires
            old(self).wf(),
            slot < old(self).entries().len(),
        ensures
            *value == old(self).entries()[slot as int].1,
            final(self).wf(),
            final(self).entries() == old(self).entries().update(
                slot as int,
                (old(self).entries()[slot as int].0, *final(value)),
            ),
            final(self)@ == old(self)@.insert(
                old(self).entries()[slot as int].0@,
                *final(value),
            ),
    {
        &mut self.entries[slot].1
    }

    /// Adds a name that is not in the map.
    pub fn push(&mut self, name: String, value: V)
        requires
            old(self).wf(),
            !old(self)@.contains_key(name@),
        ensures
            final(self).wf(),
            final(self).entries() == old(self).entries().push((name, value)),
            final(self)@ == old(self)@.insert(name@, value),
    {
        let slot: usize = self.entries.len();
        self.index.insert(name.clone(), slot);
        self.entries.push((name, value));
        assert(self@ =~= old(self)@.insert(name@, value));
    }

    /// The names with their values, in the order in which the names came.
    pub fn into_entries(self) -> (entries: Vec<(String, V)>)
        ensures
            entries@ == self.entries(),
    {
        self.entries
    }
}

} // verus!
