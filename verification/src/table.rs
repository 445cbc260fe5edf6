//! A lookup table held as a vector of entries.
//!
//! No key occurs twice. To its users a table is the map from keys to values.

use vstd::prelude::*;

verus! {

/// A key that can be compared with another one.
pub trait TableKey: View + Sized {
    /// Whether the two keys are the same.
    fn same(&self, other: &Self) -> (same: bool)
        ensures
            same == (self@ == other@),
    ;
}

impl TableKey for Vec<u8> {
    fn same(&self, other: &Self) -> (same: bool) {
        crate::bytes::same_bytes(self, other)
    }
}

/// Whether no two entries have the same key.
spec fn distinct<K: TableKey, V>(entries: Seq<(K, V)>) -> bool {
    forall|i: int, j: int|
        0 <= i < j < entries.len() ==> (#[trigger] entries[i]).0@ != (#[trigger] entries[j]).0@
}

/// The map that a list of entries stands for; a later entry replaces an earlier
/// one with the same key.
pub open spec fn map_of<K: TableKey, V>(entries: Seq<(K, V)>) -> Map<K::V, V>
    decreases entries.len(),
{
    if entries.len() == 0 {
        Map::empty()
    } else {
        map_of(entries.drop_last()).insert(entries.last().0@, entries.last().1)
    }
}

/// A table from keys to values.
pub struct Table<K: TableKey, V> {
    entries: Vec<(K, V)>,
}

impl<K: TableKey, V> View for Table<K, V> {
    type V = Map<K::V, V>;

    closed spec fn view(&self) -> Map<K::V, V> {
        map_of(self.entries@)
    }
}

impl<K: TableKey, V> Table<K, V> {
    #[verifier::type_invariant]
    spec fn keys_distinct(self) -> bool {
        distinct(self.entries@)
    }

    /// An empty table.
    pub fn new() -> (table: Self)
        ensures
            table@ == Map::<K::V, V>::empty(),
    {
        Table { entries: Vec::new() }
    }

    /// The entries, each key once.
    pub fn entries(&self) -> (entries: &Vec<(K, V)>)
        ensures
            map_of(entries@) == self@,
            forall|i: int, j: int|
                0 <= i < j < entries@.len() ==> (#[trigger] entries@[i]).0@ != (
                #[trigger] entries@[j]).0@,
    {
        proof {
            use_type_invariant(self);
        }
        &self.entries
    }

    /// The position of a key among the entries.
    fn position(&self, key: &K) -> (position: Option<usize>)
        ensures
            match position {
                Some(i) => i < self.entries@.len() && self.entries@[i as int].0@ == key@,
                None => forall|i: int|
                    0 <= i < self.entries@.len() ==> (#[trigger] self.entries@[i]).0@ != key@,
            },
    {
        let mut i: usize = 0;
        while i < self.entries.len()
            invariant
                i <= self.entries@.len(),
                forall|j: int| 0 <= j < i ==> (#[trigger] self.entries@[j]).0@ != key@,
            decreases self.entries@.len() - i,
        {
            if self.entries[i].0.same(key) {
                return Some(i);
            }
            i = i + 1;
        }
        None
    }

    /// Looks a key up.
    pub fn get(&self, key: &K) -> (value: Option<&V>)
        ensures
            match value {
                Some(v) => self@.contains_key(key@) && *v == self@[key@],
                None => !self@.contains_key(key@),
            },
    {
        proof {
            use_type_invariant(self);
        }
        match self.position(key) {
            Some(i) => {
                proof {
                    lemma_present(self.entries@, i as int);
                }
                Some(&self.entries[i].1)
            },
            None => {
                proof {
                    lemma_absent(self.entries@, key@);
                }
                None
            },
        }
    }

    /// Takes a key out and returns its value, if there was one.
    pub fn remove(&mut self, key: &K) -> (value: Option<V>)
        ensures
            final(self)@ == old(self)@.remove(key@),
            match value {
                Some(v) => old(self)@.contains_key(key@) && v == old(self)@[key@],
                None => !old(self)@.contains_key(key@),
            },
    {
        proof {
            use_type_invariant(&*self);
        }
        match self.position(key) {
            Some(i) => {
                let mut entries: Vec<(K, V)> = Vec::new();
                std::mem::swap(&mut entries, &mut self.entries);
                proof {
                    lemma_present(entries@, i as int);
                    lemma_removed(entries@, i as int);
                }
                let entry = entries.remove(i);
                self.entries = entries;
                Some(entry.1)
            },
            None => {
                proof {
                    lemma_absent(self.entries@, key@);
                    assert(self@.remove(key@) =~= self@);
                }
                None
            },
        }
    }

    /// Sets the value of a key, in place of the one it had.
    pub fn insert(&mut self, key: K, value: V)
        ensures
            final(self)@ == old(self)@.insert(key@, value),
    {
        let _ = self.remove(&key);
        proof {
            use_type_invariant(&*self);
        }
        let ghost before = self@;
        let mut entries: Vec<(K, V)> = Vec::new();
        std::mem::swap(&mut entries, &mut self.entries);
        let ghost kept = entries@;
        proof {
            assert forall|i: int| 0 <= i < kept.len() implies (#[trigger] kept[i]).0@ != key@ by {
                lemma_present(kept, i);
            }
        }
        entries.push((key, value));
        assert(entries@.drop_last() =~= kept);
        assert(map_of(entries@) == before.insert(key@, value));
        assert(before.insert(key@, value) =~= old(self)@.insert(key@, value));
        self.entries = entries;
    }
}

/// An entry's key is in the map, with the entry's value.
proof fn lemma_present<K: TableKey, V>(entries: Seq<(K, V)>, i: int)
    requires
        distinct(entries),
        0 <= i < entries.len(),
    ensures
        map_of(entries).contains_key(entries[i].0@),
        map_of(entries)[entries[i].0@] == entries[i].1,
    decreases entries.len(),
{
    if i < entries.len() - 1 {
        let rest = entries.drop_last();
        assert(rest[i] == entries[i]);
        assert(entries[i].0@ != entries[entries.len() - 1].0@);
        assert(distinct(rest)) by {
            assert forall|a: int, b: int| 0 <= a < b < rest.len() implies (#[trigger] rest[a]).0@
                != (#[trigger] rest[b]).0@ by {
                assert(rest[a] == entries[a]);
                assert(rest[b] == entries[b]);
            }
        }
        lemma_present(rest, i);
    }
}

/// A key that no entry has is not in the map.
proof fn lemma_absent<K: TableKey, V>(entries: Seq<(K, V)>, key: K::V)
    requires
        forall|i: int| 0 <= i < entries.len() ==> (#[trigger] entries[i]).0@ != key,
    ensures
        !map_of(entries).contains_key(key),
    decreases entries.len(),
{
    if entries.len() > 0 {
        let rest = entries.drop_last();
        assert forall|i: int| 0 <= i < rest.len() implies (#[trigger] rest[i]).0@ != key by {
            assert(rest[i] == entries[i]);
        }
        assert(entries.last() == entries[entries.len() - 1]);
        lemma_absent(rest, key);
    }
}

/// Taking an entry out takes its key out of the map.
proof fn lemma_removed<K: TableKey, V>(entries: Seq<(K, V)>, i: int)
    requires
        distinct(entries),
        0 <= i < entries.len(),
    ensures
        distinct(entries.remove(i)),
        map_of(entries.remove(i)) == map_of(entries).remove(entries[i].0@),
    decreases entries.len(),
{
    let removed = entries.remove(i);
    let key = entries[i].0@;
    assert forall|a: int, b: int| 0 <= a < b < removed.len() implies (#[trigger] removed[a]).0@ != (
    #[trigger] removed[b]).0@ by {
        let c = if a < i { a } else { a + 1 };
        let d = if b < i { b } else { b + 1 };
        assert(removed[a] == entries[c]);
        assert(removed[b] == entries[d]);
    }
    let rest = entries.drop_last();
    assert forall|a: int, b: int| 0 <= a < b < rest.len() implies (#[trigger] rest[a]).0@ != (
    #[trigger] rest[b]).0@ by {
        assert(rest[a] == entries[a]);
        assert(rest[b] == entries[b]);
    }
    if i == entries.len() - 1 {
        assert(removed =~= rest);
        assert forall|j: int| 0 <= j < rest.len() implies (#[trigger] rest[j]).0@ != key by {
            assert(rest[j] == entries[j]);
        }
        lemma_absent(rest, key);
        assert(map_of(rest).insert(key, entries.last().1).remove(key) =~= map_of(rest));
    } else {
        assert(removed.drop_last() =~= rest.remove(i));
        assert(removed.last() == entries.last());
        assert(entries.last() == entries[entries.len() - 1]);
        assert(rest[i] == entries[i]);
        lemma_removed(rest, i);
        let last = entries.last();
        assert(map_of(rest).remove(key).insert(last.0@, last.1) =~= map_of(rest).insert(
            last.0@,
            last.1,
        ).remove(key));
    }
}

} // verus!
