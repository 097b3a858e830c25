//! A list of records, each under a key of its own.

use crate::bytes::bytes_equal;
use crate::text::same_text;
use vstd::prelude::*;

verus! {

/// A key that records can be kept under.
pub trait RegistryKey: View + Sized {
    /// Whether two keys are the same.
    fn same_key(&self, other: &Self) -> (same: bool)
        ensures
            same == (self@ == other@),
    ;
}

impl RegistryKey for [u8; 16] {
    fn same_key(&self, other: &Self) -> (same: bool) {
        bytes_equal(self, other)
    }
}

impl RegistryKey for [u8; 32] {
    fn same_key(&self, other: &Self) -> (same: bool) {
        bytes_equal(self, other)
    }
}

impl RegistryKey for String {
    fn same_key(&self, other: &Self) -> (same: bool) {
        same_text(self.as_str(), other.as_str())
    }
}

/// Records under distinct keys.
#[derive(Debug)]
pub struct Registry<K, V> {
    entries: Vec<(K, V)>,
}

spec fn distinct_keys<K: View, V>(entries: Seq<(K, V)>) -> bool {
    forall|i: int, j: int|
        0 <= i < j < entries.len() ==> (#[trigger] entries[i]).0@ != (#[trigger] entries[j]).0@
}

spec fn map_of<K: View, V>(entries: Seq<(K, V)>) -> Map<K::V, V>
    decreases entries.len(),
{
    if entries.len() == 0 {
        Map::empty()
    } else {
        map_of(entries.drop_last()).insert(entries.last().0@, entries.last().1)
    }
}

proof fn lemma_map_of<K: View, V>(entries: Seq<(K, V)>)
    requires
        distinct_keys(entries),
    ensures
        forall|i: int|
            0 <= i < entries.len() ==> map_of(entries).contains_key((#[trigger] entries[i]).0@)
                && map_of(entries)[entries[i].0@] == entries[i].1,
        forall|key: K::V| #[trigger]
            map_of(entries).contains_key(key) ==> exists|i: int|
                0 <= i < entries.len() && (#[trigger] entries[i]).0@ == key,
        map_of(entries).dom().finite(),
        map_of(entries).dom().len() == entries.len(),
    decreases entries.len(),
{
    if entries.len() > 0 {
        let rest = entries.drop_last();
        let last = entries.last();
        assert forall|i: int, j: int| 0 <= i < j < rest.len() implies (#[trigger] rest[i]).0@ != (
        #[trigger] rest[j]).0@ by {
            assert(entries[i].0@ != entries[j].0@);
        }
        lemma_map_of(rest);
        if map_of(rest).contains_key(last.0@) {
            let i = choose|i: int| 0 <= i < rest.len() && (#[trigger] rest[i]).0@ == last.0@;
            assert(entries[i].0@ != entries[entries.len() - 1].0@);
        }
        assert forall|i: int| 0 <= i < entries.len() implies map_of(entries).contains_key(
            (#[trigger] entries[i]).0@,
        ) && map_of(entries)[entries[i].0@] == entries[i].1 by {
            if i < rest.len() {
                assert(rest[i] == entries[i]);
                assert(entries[i].0@ != entries[entries.len() - 1].0@);
            }
        }
        assert forall|key: K::V| #[trigger] map_of(entries).contains_key(key) implies exists|i: int|
            0 <= i < entries.len() && (#[trigger] entries[i]).0@ == key by {
            if key == last.0@ {
                assert(entries[entries.len() - 1].0@ == key);
            } else {
                assert(map_of(rest).contains_key(key));
                let i = choose|i: int| 0 <= i < rest.len() && (#[trigger] rest[i]).0@ == key;
                assert(entries[i].0@ == key);
            }
        }
        assert(map_of(entries).dom() =~= map_of(rest).dom().insert(last.0@));
    } else {
        assert(map_of(entries).dom() =~= Set::empty());
    }
}

proof fn lemma_map_from_facts<K: View, V>(entries: Seq<(K, V)>, map: Map<K::V, V>)
    requires
        distinct_keys(entries),
        forall|i: int|
            0 <= i < entries.len() ==> map.contains_key((#[trigger] entries[i]).0@)
                && map[entries[i].0@] == entries[i].1,
        forall|key: K::V| #[trigger]
            map.contains_key(key) ==> exists|i: int|
                0 <= i < entries.len() && (#[trigger] entries[i]).0@ == key,
    ensures
        map_of(entries) == map,
{
    lemma_map_of(entries);
    assert forall|key: K::V| #[trigger] map_of(entries).contains_key(key) == map.contains_key(
        key,
    ) by {
        if map_of(entries).contains_key(key) {
            let i = choose|i: int| 0 <= i < entries.len() && (#[trigger] entries[i]).0@ == key;
            assert(map.contains_key(entries[i].0@));
        }
        if map.contains_key(key) {
            let i = choose|i: int| 0 <= i < entries.len() && (#[trigger] entries[i]).0@ == key;
            assert(map_of(entries).contains_key(entries[i].0@));
        }
    }
    assert forall|key: K::V| #[trigger] map_of(entries).contains_key(key) implies map_of(
        entries,
    )[key] == map[key] by {
        let i = choose|i: int| 0 <= i < entries.len() && (#[trigger] entries[i]).0@ == key;
        assert(map_of(entries)[entries[i].0@] == entries[i].1);
        assert(map[entries[i].0@] == entries[i].1);
    }
    assert(map_of(entries) =~= map);
}

impl<K: RegistryKey, V> View for Registry<K, V> {
    type V = Map<K::V, V>;

    /// The records by their keys.
    closed spec fn view(&self) -> Map<K::V, V> {
        map_of(self.entries@)
    }
}

impl<K: RegistryKey, V> Registry<K, V> {
    /// No key occurs twice.
    pub closed spec fn wf(self) -> bool {
        distinct_keys(self.entries@)
    }

    /// The records in the order in which they are kept.
    pub closed spec fn listing(self) -> Seq<(K, V)> {
        self.entries@
    }

    /// The listing holds exactly the records of the view.
    pub proof fn lemma_listing(&self)
        requires
            self.wf(),
        ensures
            forall|i: int|
                0 <= i < self.listing().len() ==> self@.contains_key(
                    (#[trigger] self.listing()[i]).0@,
                ) && self@[self.listing()[i].0@] == self.listing()[i].1,
            forall|key: K::V| #[trigger]
                self@.contains_key(key) ==> exists|i: int|
                    0 <= i < self.listing().len() && (#[trigger] self.listing()[i]).0@ == key,
            self@.dom().finite(),
            self@.dom().len() == self.listing().len(),
            forall|i: int, j: int|
                0 <= i < j < self.listing().len() ==> (#[trigger] self.listing()[i]).0@ != (
                #[trigger] self.listing()[j]).0@,
    {
        lemma_map_of(self.entries@);
        assert forall|key: K::V| #[trigger] self@.contains_key(key) implies exists|i: int|
            0 <= i < self.listing().len() && (#[trigger] self.listing()[i]).0@ == key by {
            let i = choose|i: int|
                0 <= i < self.entries@.len() && (#[trigger] self.entries@[i]).0@ == key;
            assert(self.listing()[i].0@ == key);
        }
    }

    /// A registry without records.
    pub fn new() -> (registry: Self)
        ensures
            registry.wf(),
            registry@ == Map::<K::V, V>::empty(),
            registry.listing().len() == 0,
    {
        let registry = Registry { entries: Vec::new() };
        assert(registry@ =~= Map::<K::V, V>::empty());
        registry
    }

    /// The number of records.
    pub fn len(&self) -> (count: usize)
        requires
            self.wf(),
        ensures
            count == self@.dom().len(),
            count == self.listing().len(),
    {
        proof {
            lemma_map_of(self.entries@);
        }
        self.entries.len()
    }

    fn position(&self, key: &K) -> (at: Option<usize>)
        requires
            self.wf(),
        ensures
            match at {
                Some(i) => i < self.entries@.len() && self.entries@[i as int].0@ == key@
                    && self@.contains_key(key@) && self@[key@] == self.entries@[i as int].1,
                None => !self@.contains_key(key@),
            },
    {
        proof {
            lemma_map_of(self.entries@);
        }
        let mut index: usize = 0;
        while index < self.entries.len()
            invariant
                index <= self.entries.len(),
                self.wf(),
                forall|i: int|
                    0 <= i < self.entries@.len() ==> self@.contains_key(
                        (#[trigger] self.entries@[i]).0@,
                    ) && self@[self.entries@[i].0@] == self.entries@[i].1,
                forall|i: int| 0 <= i < index ==> (#[trigger] self.entries@[i]).0@ != key@,
            decreases self.entries.len() - index,
        {
            if self.entries[index].0.same_key(key) {
                assert(self@.contains_key(self.entries@[index as int].0@));
                return Some(index);
            }
            index += 1;
        }
        None
    }

    /// Whether there is a record under `key`.
    pub fn contains(&self, key: &K) -> (found: bool)
        requires
            self.wf(),
        ensures
            found == self@.contains_key(key@),
    {
        self.position(key).is_some()
    }

    /// The record under `key`.
    pub fn get(&self, key: &K) -> (value: Option<&V>)
        requires
            self.wf(),
        ensures
            match value {
                Some(record) => self@.contains_key(key@) && *record == self@[key@],
                None => !self@.contains_key(key@),
            },
    {
        match self.position(key) {
            Some(at) => Some(&self.entries[at].1),
            None => None,
        }
    }

    /// The record with the given index in the listing.
    pub fn at(&self, index: usize) -> (entry: &(K, V))
        requires
            self.wf(),
            index < self.listing().len(),
        ensures
            *entry == self.listing()[index as int],
    {
        &self.entries[index]
    }

    /// Adds a record under a key that is not in use.
    pub fn insert(&mut self, key: K, value: V)
        requires
            old(self).wf(),
            !old(self)@.contains_key(key@),
        ensures
            final(self).wf(),
            final(self)@ == old(self)@.insert(key@, value),
            final(self).listing() == old(self).listing().push((key, value)),
    {
        let ghost before = self.entries@;
        self.entries.push((key, value));
        proof {
            lemma_map_of(before);
            let after = self.entries@;
            assert(after.drop_last() =~= before);
            assert forall|i: int, j: int| 0 <= i < j < after.len() implies (
            #[trigger] after[i]).0@ != (#[trigger] after[j]).0@ by {
                if j < before.len() {
                    assert(before[i].0@ != before[j].0@);
                } else {
                    assert(map_of(before).contains_key(before[i].0@));
                }
            }
        }
    }

    /// Takes the record with the given index out of the registry.
    pub fn remove_at(&mut self, index: usize) -> (entry: (K, V))
        requires
            old(self).wf(),
            index < old(self).listing().len(),
        ensures
            final(self).wf(),
            entry == old(self).listing()[index as int],
            old(self)@.contains_key(entry.0@),
            old(self)@[entry.0@] == entry.1,
            final(self)@ == old(self)@.remove(entry.0@),
            final(self).listing() == old(self).listing().remove(index as int),
    {
        let ghost before = self.entries@;
        let entry: (K, V) = self.entries.remove(index);
        proof {
            lemma_remove(before, index as int);
        }
        entry
    }

    /// Takes the record under `key` out of the registry.
    pub fn remove(&mut self, key: &K) -> (value: Option<V>)
        requires
            old(self).wf(),
        ensures
            final(self).wf(),
            final(self)@ == old(self)@.remove(key@),
            match value {
                Some(record) => old(self)@.contains_key(key@) && record == old(self)@[key@],
                None => !old(self)@.contains_key(key@) && *final(self) == *old(self),
            },
    {
        match self.position(key) {
            Some(at) => {
                let entry = self.remove_at(at);
                Some(entry.1)
            },
            None => {
                assert(self@.remove(key@) =~= self@);
                None
            },
        }
    }

    /// The record under `key`, to be changed in its place.
    pub fn get_mut(&mut self, key: &K) -> (value: Option<&mut V>)
        requires
            old(self).wf(),
        ensures
            match value {
                Some(record) => {
                    &&& old(self)@.contains_key(key@)
                    &&& *record == old(self)@[key@]
                    &&& final(self).wf()
                    &&& final(self)@ == old(self)@.insert(key@, *final(record))
                    &&& final(self).listing().len() == old(self).listing().len()
                },
                None => !old(self)@.contains_key(key@) && *final(self) == *old(self),
            },
    {
        match self.position(key) {
            Some(at) => {
                proof {
                    let entries = self.entries@;
                    assert forall|record: V|
                        distinct_keys(
                            #[trigger] entries.update(at as int, (entries[at as int].0, record)),
                        ) && map_of(entries.update(at as int, (entries[at as int].0, record)))
                            == map_of(entries).insert(key@, record) by {
                        lemma_update(entries, at as int, record);
                    }
                }
                Some(&mut self.entries[at].1)
            },
            None => None,
        }
    }

    /// Empties the registry.
    pub fn clear(&mut self)
        ensures
            final(self).wf(),
            final(self)@ == Map::<K::V, V>::empty(),
    {
        self.entries.clear();
        assert(self@ =~= Map::<K::V, V>::empty());
    }
}

proof fn lemma_update<K: View, V>(entries: Seq<(K, V)>, index: int, record: V)
    requires
        distinct_keys(entries),
        0 <= index < entries.len(),
    ensures
        distinct_keys(entries.update(index, (entries[index].0, record))),
        map_of(entries.update(index, (entries[index].0, record))) == map_of(entries).insert(
            entries[index].0@,
            record,
        ),
{
    let after = entries.update(index, (entries[index].0, record));
    lemma_map_of(entries);
    assert forall|i: int, j: int| 0 <= i < j < after.len() implies (#[trigger] after[i]).0@ != (
    #[trigger] after[j]).0@ by {
        assert(entries[i].0@ != entries[j].0@);
    }
    let map = map_of(entries).insert(entries[index].0@, record);
    assert forall|i: int| 0 <= i < after.len() implies map.contains_key((#[trigger] after[i]).0@)
        && map[after[i].0@] == after[i].1 by {
        assert(map_of(entries).contains_key(entries[i].0@));
        if i < index {
            assert(entries[i].0@ != entries[index].0@);
        } else if i > index {
            assert(entries[index].0@ != entries[i].0@);
        }
    }
    assert forall|key: K::V| #[trigger] map.contains_key(key) implies exists|i: int|
        0 <= i < after.len() && (#[trigger] after[i]).0@ == key by {
        if key == entries[index].0@ {
            assert(after[index].0@ == key);
        } else {
            assert(map_of(entries).contains_key(key));
            let i = choose|i: int| 0 <= i < entries.len() && (#[trigger] entries[i]).0@ == key;
            assert(after[i].0@ == key);
        }
    }
    lemma_map_from_facts(after, map);
}

proof fn lemma_remove<K: View, V>(entries: Seq<(K, V)>, index: int)
    requires
        distinct_keys(entries),
        0 <= index < entries.len(),
    ensures
        distinct_keys(entries.remove(index)),
        map_of(entries).contains_key(entries[index].0@),
        map_of(entries)[entries[index].0@] == entries[index].1,
        map_of(entries.remove(index)) == map_of(entries).remove(entries[index].0@),
{
    lemma_map_of(entries);
    let after = entries.remove(index);
    let map = map_of(entries).remove(entries[index].0@);
    assert forall|i: int, j: int| 0 <= i < j < after.len() implies (#[trigger] after[i]).0@ != (
    #[trigger] after[j]).0@ by {
        let a = if i < index { i } else { i + 1 };
        let b = if j < index { j } else { j + 1 };
        assert(entries[a].0@ != entries[b].0@);
    }
    assert forall|i: int| 0 <= i < after.len() implies map.contains_key((#[trigger] after[i]).0@)
        && map[after[i].0@] == after[i].1 by {
        let a = if i < index { i } else { i + 1 };
        assert(map_of(entries).contains_key(entries[a].0@));
        if a < index {
            assert(entries[a].0@ != entries[index].0@);
        } else {
            assert(entries[index].0@ != entries[a].0@);
        }
    }
    assert forall|key: K::V| #[trigger] map.contains_key(key) implies exists|i: int|
        0 <= i < after.len() && (#[trigger] after[i]).0@ == key by {
        assert(map_of(entries).contains_key(key));
        let a = choose|a: int| 0 <= a < entries.len() && (#[trigger] entries[a]).0@ == key;
        let i = if a < index { a } else { a - 1 };
        assert(after[i].0@ == key);
    }
    lemma_map_from_facts(after, map);
}

} // verus!
