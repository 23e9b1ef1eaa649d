//! The registry of committed memory regions: an insert-if-absent map from
//! keys to mappings, kept in the order of insertion.

use crate::emulator::{MemMap, MemMapView};
use vstd::prelude::*;
use vstd::string::StringExecFns;

verus! {

/// A key and the mapping registered under it, as the contracts see them.
pub type EntryView = (Seq<char>, MemMapView);

/// Tells whether some entry of `entries` has the key `key`.
pub open spec fn has_key(entries: Seq<EntryView>, key: Seq<char>) -> bool {
    exists|i: int| 0 <= i < entries.len() && (#[trigger] entries[i]).0 == key
}

/// Tells whether no two entries of `entries` share a key.
pub open spec fn distinct_keys(entries: Seq<EntryView>) -> bool {
    forall|i: int, j: int|
        0 <= i < j < entries.len() ==> (#[trigger] entries[i]).0 != (#[trigger] entries[j]).0
}

/// The map that a list of entries stands for.
pub open spec fn entries_map(entries: Seq<EntryView>) -> Map<Seq<char>, MemMapView>
    decreases entries.len(),
{
    if entries.len() == 0 {
        Map::empty()
    } else {
        entries_map(entries.drop_last()).insert(entries.last().0, entries.last().1)
    }
}

/// The map of a list of entries has exactly the keys of the list; where the
/// keys are distinct it has as many pairs as the list has entries, and gives
/// for each key the mapping that stands beside it.
pub proof fn lemma_entries_map(entries: Seq<EntryView>)
    ensures
        entries_map(entries).dom().finite(),
        forall|key: Seq<char>| #[trigger]
            entries_map(entries).contains_key(key) <==> has_key(entries, key),
        distinct_keys(entries) ==> entries_map(entries).len() == entries.len(),
        distinct_keys(entries) ==> forall|i: int|
            0 <= i < entries.len() ==> entries_map(entries)[(#[trigger] entries[i]).0]
                == entries[i].1,
    decreases entries.len(),
{
    if entries.len() == 0 {
        assert forall|key: Seq<char>| #[trigger]
            entries_map(entries).contains_key(key) <==> has_key(entries, key) by {}
    } else {
        let front = entries.drop_last();
        let last = entries.last();
        lemma_entries_map(front);
        assert forall|key: Seq<char>| #[trigger]
            entries_map(entries).contains_key(key) <==> has_key(entries, key) by {
            if has_key(entries, key) {
                let i = choose|i: int| 0 <= i < entries.len() && (#[trigger] entries[i]).0 == key;
                if i < front.len() {
                    assert(front[i].0 == key);
                    assert(has_key(front, key));
                }
            }
            if entries_map(entries).contains_key(key) {
                if key == last.0 {
                    assert(entries[entries.len() - 1].0 == key);
                } else {
                    assert(has_key(front, key));
                    let i = choose|i: int| 0 <= i < front.len() && (#[trigger] front[i]).0 == key;
                    assert(entries[i].0 == key);
                }
            }
        }
        if distinct_keys(entries) {
            assert(distinct_keys(front)) by {
                assert forall|i: int, j: int| 0 <= i < j < front.len() implies (
                #[trigger] front[i]).0 != (#[trigger] front[j]).0 by {
                    assert(entries[i].0 != entries[j].0);
                }
            }
            assert(!has_key(front, last.0)) by {
                if has_key(front, last.0) {
                    let i = choose|i: int|
                        0 <= i < front.len() && (#[trigger] front[i]).0 == last.0;
                    assert(entries[i].0 != entries[entries.len() - 1].0);
                }
            }
            assert(!entries_map(front).contains_key(last.0));
            assert forall|i: int| 0 <= i < entries.len() implies entries_map(entries)[(
            #[trigger] entries[i]).0] == entries[i].1 by {
                if i < front.len() {
                    assert(front[i] == entries[i]);
                    assert(entries[i].0 != entries[entries.len() - 1].0);
                }
            }
        }
    }
}

/// A registered mapping with its key.
struct Entry {
    key: String,
    mapping: MemMap,
}

/// The committed regions of one emulator, each under its key. No two
/// entries share a key.
pub struct MemMaps {
    entries: Vec<Entry>,
}

impl MemMaps {
    /// The entries in the order in which they were inserted.
    pub closed spec fn entries(&self) -> Seq<EntryView> {
        Seq::new(
            self.entries@.len(),
            |i: int| (self.entries@[i].key@, self.entries@[i].mapping@),
        )
    }

    #[verifier::type_invariant]
    spec fn keys_distinct(&self) -> bool {
        distinct_keys(self.entries())
    }

    /// The position of `key` among the entries, if it is there.
    fn position(&self, key: &String) -> (found: Option<usize>)
        ensures
            match found {
                Some(i) => i < self.entries().len() && self.entries()[i as int].0 == key@,
                None => !has_key(self.entries(), key@),
            },
    {
        let mut i: usize = 0;
        while i < self.entries.len()
            invariant
                i <= self.entries@.len(),
                forall|j: int| 0 <= j < i ==> (#[trigger] self.entries()[j]).0 != key@,
            decreases self.entries@.len() - i,
        {
            if self.entries[i].key == *key {
                return Some(i);
            }
            i += 1;
        }
        None
    }

    /// A registry without entries.
    pub fn new() -> (maps: MemMaps)
        ensures
            maps@ == Map::<Seq<char>, MemMapView>::empty(),
            maps.entries() == Seq::<EntryView>::empty(),
    {
        let maps = MemMaps { entries: Vec::new() };
        assert(maps.entries() =~= Seq::<EntryView>::empty());
        maps
    }

    /// The number of registered mappings.
    pub fn len(&self) -> (n: usize)
        ensures
            n == self@.len(),
            n == self.entries().len(),
            self@.dom().finite(),
            distinct_keys(self.entries()),
    {
        proof {
            use_type_invariant(self);
            lemma_entries_map(self.entries());
        }
        self.entries.len()
    }

    /// Tells whether no mapping is registered.
    pub fn is_empty(&self) -> (empty: bool)
        ensures
            empty == (self@.len() == 0),
    {
        self.len() == 0
    }

    /// Tells whether a mapping is registered under `key`.
    pub fn contains_key(&self, key: &str) -> (present: bool)
        ensures
            present == self@.contains_key(key@),
            present == has_key(self.entries(), key@),
            distinct_keys(self.entries()),
    {
        proof {
            use_type_invariant(self);
            lemma_entries_map(self.entries());
        }
        let wanted = String::from_str(key);
        self.position(&wanted).is_some()
    }

    /// The mapping registered under `key`.
    pub fn get(&self, key: &str) -> (found: Option<&MemMap>)
        ensures
            match found {
                Some(mapping) => self@.contains_key(key@) && self@[key@] == mapping@,
                None => !self@.contains_key(key@),
            },
    {
        proof {
            use_type_invariant(self);
            lemma_entries_map(self.entries());
        }
        let wanted = String::from_str(key);
        match self.position(&wanted) {
            Some(i) => {
                assert(self.entries()[i as int].1 == self.entries@[i as int].mapping@);
                Some(&self.entries[i].mapping)
            },
            None => None,
        }
    }

    /// The key and the mapping of the entry that was inserted as the
    /// `index`-th, counting from zero; nothing where there are not that many
    /// entries.
    pub fn entry_at(&self, index: usize) -> (found: Option<(&String, &MemMap)>)
        ensures
            index < self.entries().len() ==> found is Some && found->Some_0.0@
                == self.entries()[index as int].0 && found->Some_0.1@
                == self.entries()[index as int].1 && self@.contains_key(found->Some_0.0@)
                && self@[found->Some_0.0@] == found->Some_0.1@,
            index >= self.entries().len() ==> found is None,
    {
        proof {
            use_type_invariant(self);
            lemma_entries_map(self.entries());
        }
        if index < self.entries.len() {
            assert(self.entries()[index as int].0 == self.entries@[index as int].key@);
            Some((&self.entries[index].key, &self.entries[index].mapping))
        } else {
            None
        }
    }

    /// Registers `mapping` under `key` unless the key is taken. A taken key
    /// leaves the registry as it was and hands the mapping back.
    pub fn insert(&mut self, key: String, mapping: MemMap) -> (outcome: Result<(), MemMap>)
        ensures
            old(self)@.contains_key(key@) ==> outcome == Err::<(), MemMap>(mapping) && final(self)@
                == old(self)@ && final(self).entries() == old(self).entries(),
            !old(self)@.contains_key(key@) ==> outcome is Ok && final(self)@ == old(self)@.insert(
                key@,
                mapping@,
            ) && final(self).entries() == old(self).entries().push((key@, mapping@)),
            distinct_keys(old(self).entries()),
            distinct_keys(final(self).entries()),
    {
        proof {
            use_type_invariant(&*self);
            lemma_entries_map(self.entries());
        }
        if self.position(&key).is_some() {
            return Err(mapping);
        }
        let ghost before = self.entries();
        let ghost added = (key@, mapping@);
        let mut entries: Vec<Entry> = Vec::new();
        std::mem::swap(&mut self.entries, &mut entries);
        entries.push(Entry { key, mapping });
        proof {
            let after = Seq::new(
                entries@.len(),
                |i: int| (entries@[i].key@, entries@[i].mapping@),
            );
            assert(after =~= before.push(added));
            assert(distinct_keys(after)) by {
                assert forall|i: int, j: int| 0 <= i < j < after.len() implies (
                #[trigger] after[i]).0 != (#[trigger] after[j]).0 by {
                    assert(after[i] == before[i]);
                    if j < before.len() {
                        assert(after[j] == before[j]);
                    }
                }
            }
        }
        std::mem::swap(&mut self.entries, &mut entries);
        proof {
            assert(self.entries() =~= before.push(added));
            assert(self.entries().drop_last() =~= before);
        }
        Ok(())
    }
}

impl View for MemMaps {
    type V = Map<Seq<char>, MemMapView>;

    open spec fn view(&self) -> Map<Seq<char>, MemMapView> {
        entries_map(self.entries())
    }
}

} // verus!
