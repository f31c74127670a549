//! A map from storage keys to values, held as a list of entries.
//!
//! Storage and both layers of the write log are maps of this kind. The
//! contracts speak of the map that the entries stand for, `Map<Seq<char>, V::V>`:
//! the order in which the entries are held is an internal matter, visible only
//! to the code that walks them.

use vstd::prelude::*;
use crate::key::Key;

verus! {

/// No two entries of `entries` have the same key.
pub open spec fn distinct_keys<T>(entries: Seq<(Seq<char>, T)>) -> bool {
    forall|i: int, j: int|
        0 <= i < j < entries.len() ==> (#[trigger] entries[i]).0 != (#[trigger] entries[j]).0
}

/// Some entry of `entries` has the key `key`.
pub open spec fn has_key<T>(entries: Seq<(Seq<char>, T)>, key: Seq<char>) -> bool {
    exists|i: int| 0 <= i < entries.len() && (#[trigger] entries[i]).0 == key
}

/// The place of an entry with the key `key`, where there is one.
pub open spec fn index_of<T>(entries: Seq<(Seq<char>, T)>, key: Seq<char>) -> int {
    choose|i: int| 0 <= i < entries.len() && (#[trigger] entries[i]).0 == key
}

/// The map that a list of entries stands for.
pub open spec fn entries_map<T>(entries: Seq<(Seq<char>, T)>) -> Map<Seq<char>, T> {
    Map::new(
        |key: Seq<char>| has_key(entries, key),
        |key: Seq<char>| entries[index_of(entries, key)].1,
    )
}

/// The map `map` after the writes `writes`, made in their order: each sets
/// the value for its key.
pub open spec fn apply_writes<T>(map: Map<Seq<char>, T>, writes: Seq<(Seq<char>, T)>) -> Map<
    Seq<char>,
    T,
>
    decreases writes.len(),
{
    if writes.len() == 0 {
        map
    } else {
        apply_writes(map, writes.drop_last()).insert(writes.last().0, writes.last().1)
    }
}

/// A list of keys and values by their views.
pub open spec fn entry_views<V: View>(entries: Seq<(Key, V)>) -> Seq<(Seq<char>, V::V)> {
    Seq::new(entries.len(), |i: int| (entries[i].0@, entries[i].1@))
}

/// One more write sets one more value.
pub proof fn lemma_apply_writes_push<T>(
    map: Map<Seq<char>, T>,
    writes: Seq<(Seq<char>, T)>,
    key: Seq<char>,
    value: T,
)
    ensures
        apply_writes(map, writes.push((key, value))) == apply_writes(map, writes).insert(
            key,
            value,
        ),
{
    assert(writes.push((key, value)).drop_last() =~= writes);
}

/// With distinct keys, the entry at place `i` is the one that the map holds
/// for its key.
pub proof fn lemma_entry_at<T>(entries: Seq<(Seq<char>, T)>, i: int)
    requires
        distinct_keys(entries),
        0 <= i < entries.len(),
    ensures
        has_key(entries, entries[i].0),
        index_of(entries, entries[i].0) == i,
        entries_map(entries).contains_key(entries[i].0),
        entries_map(entries)[entries[i].0] == entries[i].1,
{
    let j = index_of(entries, entries[i].0);
    assert(0 <= j < entries.len() && entries[j].0 == entries[i].0);
    if j < i {
        assert(entries[j].0 != entries[i].0);
    } else if i < j {
        assert(entries[i].0 != entries[j].0);
    }
}

/// A list without entries stands for the empty map.
pub proof fn lemma_entries_empty<T>(entries: Seq<(Seq<char>, T)>)
    requires
        entries.len() == 0,
    ensures
        entries_map(entries) == Map::<Seq<char>, T>::empty(),
        distinct_keys(entries),
{
    assert(entries_map(entries) =~= Map::<Seq<char>, T>::empty());
}

/// Appending an entry with a new key inserts it into the map.
pub proof fn lemma_entries_push<T>(entries: Seq<(Seq<char>, T)>, key: Seq<char>, value: T)
    requires
        distinct_keys(entries),
        !has_key(entries, key),
    ensures
        distinct_keys(entries.push((key, value))),
        entries_map(entries.push((key, value))) == entries_map(entries).insert(key, value),
{
    let after = entries.push((key, value));
    assert forall|i: int, j: int| 0 <= i < j < after.len() implies (#[trigger] after[i]).0 != (
    #[trigger] after[j]).0 by {
        if j < entries.len() {
            assert(entries[i].0 != entries[j].0);
        } else {
            assert(entries[i].0 != key);
        }
    }
    assert forall|k: Seq<char>| has_key(after, k) <==> (k == key || has_key(entries, k)) by {
        if has_key(after, k) {
            let i = index_of(after, k);
            if i < entries.len() {
                assert(entries[i].0 == k);
            }
        }
        if k == key {
            assert(after[entries.len() as int].0 == k);
        }
        if has_key(entries, k) {
            let i = index_of(entries, k);
            assert(after[i].0 == k);
        }
    }
    assert forall|k: Seq<char>| has_key(after, k) implies #[trigger] entries_map(after)[k]
        == entries_map(entries).insert(key, value)[k] by {
        let i = index_of(after, k);
        lemma_entry_at(after, i);
        if i < entries.len() {
            assert(entries[i] == after[i]);
            lemma_entry_at(entries, i);
        }
    }
    assert(entries_map(after) =~= entries_map(entries).insert(key, value));
}

/// Replacing the value of the entry at place `i` inserts the new value under
/// that entry's key.
pub proof fn lemma_entries_update<T>(entries: Seq<(Seq<char>, T)>, i: int, value: T)
    requires
        distinct_keys(entries),
        0 <= i < entries.len(),
    ensures
        distinct_keys(entries.update(i, (entries[i].0, value))),
        entries_map(entries.update(i, (entries[i].0, value))) == entries_map(entries).insert(
            entries[i].0,
            value,
        ),
{
    let key = entries[i].0;
    let after = entries.update(i, (key, value));
    assert forall|a: int, b: int| 0 <= a < b < after.len() implies (#[trigger] after[a]).0 != (
    #[trigger] after[b]).0 by {
        assert(after[a].0 == entries[a].0);
        assert(after[b].0 == entries[b].0);
    }
    assert forall|k: Seq<char>| has_key(after, k) <==> has_key(entries, k) by {
        if has_key(after, k) {
            let a = index_of(after, k);
            assert(entries[a].0 == k);
        }
        if has_key(entries, k) {
            let a = index_of(entries, k);
            assert(after[a].0 == k);
        }
    }
    lemma_entry_at(entries, i);
    assert forall|k: Seq<char>| has_key(after, k) implies #[trigger] entries_map(after)[k]
        == entries_map(entries).insert(key, value)[k] by {
        let a = index_of(after, k);
        lemma_entry_at(after, a);
        if a != i {
            assert(entries[a] == after[a]);
            lemma_entry_at(entries, a);
        }
    }
    assert(entries_map(after) =~= entries_map(entries).insert(key, value));
}

/// Taking out the entry at place `i` removes its key from the map.
pub proof fn lemma_entries_remove<T>(entries: Seq<(Seq<char>, T)>, i: int)
    requires
        distinct_keys(entries),
        0 <= i < entries.len(),
    ensures
        distinct_keys(entries.remove(i)),
        entries_map(entries.remove(i)) == entries_map(entries).remove(entries[i].0),
{
    let key = entries[i].0;
    let after = entries.remove(i);
    assert forall|a: int, b: int| 0 <= a < b < after.len() implies (#[trigger] after[a]).0 != (
    #[trigger] after[b]).0 by {
        let a0 = if a < i { a } else { a + 1 };
        let b0 = if b < i { b } else { b + 1 };
        assert(after[a] == entries[a0]);
        assert(after[b] == entries[b0]);
        assert(entries[a0].0 != entries[b0].0);
    }
    assert forall|k: Seq<char>| has_key(after, k) <==> (k != key && has_key(entries, k)) by {
        if has_key(after, k) {
            let a = index_of(after, k);
            let a0 = if a < i { a } else { a + 1 };
            assert(after[a] == entries[a0]);
            assert(entries[a0].0 == k);
            if a0 < i {
                assert(entries[a0].0 != entries[i].0);
            } else {
                assert(entries[i].0 != entries[a0].0);
            }
        }
        if k != key && has_key(entries, k) {
            let a0 = index_of(entries, k);
            let a = if a0 < i { a0 } else { a0 - 1 };
            assert(after[a] == entries[a0]);
            assert(after[a].0 == k);
        }
    }
    assert forall|k: Seq<char>| has_key(after, k) implies #[trigger] entries_map(after)[k]
        == entries_map(entries).remove(key)[k] by {
        let a = index_of(after, k);
        lemma_entry_at(after, a);
        let a0 = if a < i { a } else { a + 1 };
        assert(after[a] == entries[a0]);
        lemma_entry_at(entries, a0);
    }
    assert(entries_map(after) =~= entries_map(entries).remove(key));
}

/// The first `n + 1` entries stand for the map of the first `n` with the
/// entry at place `n` inserted, and that entry's key is new to it.
pub proof fn lemma_entries_take_step<T>(entries: Seq<(Seq<char>, T)>, n: int)
    requires
        distinct_keys(entries),
        0 <= n < entries.len(),
    ensures
        distinct_keys(entries.take(n)),
        distinct_keys(entries.take(n + 1)),
        !entries_map(entries.take(n)).contains_key(entries[n].0),
        entries_map(entries.take(n + 1)) == entries_map(entries.take(n)).insert(
            entries[n].0,
            entries[n].1,
        ),
{
    let before = entries.take(n);
    assert forall|a: int, b: int| 0 <= a < b < before.len() implies (#[trigger] before[a]).0 != (
    #[trigger] before[b]).0 by {
        assert(entries[a].0 != entries[b].0);
    }
    if has_key(before, entries[n].0) {
        let a = index_of(before, entries[n].0);
        assert(entries[a].0 != entries[n].0);
    }
    assert(entries.take(n + 1) =~= before.push(entries[n]));
    lemma_entries_push(before, entries[n].0, entries[n].1);
}

/// A list with distinct keys stands for the map that its entries, written one
/// after the other into the empty map, give.
pub proof fn lemma_apply_writes_distinct<T>(entries: Seq<(Seq<char>, T)>)
    requires
        distinct_keys(entries),
    ensures
        apply_writes(Map::<Seq<char>, T>::empty(), entries) == entries_map(entries),
    decreases entries.len(),
{
    if entries.len() == 0 {
        lemma_entries_empty(entries);
    } else {
        let n = entries.len() - 1;
        lemma_entries_take_step(entries, n);
        assert(entries.take(n) =~= entries.drop_last());
        assert(entries.take(n + 1) =~= entries);
        lemma_apply_writes_distinct(entries.drop_last());
    }
}

/// A map from storage keys to values of type `V`.
#[derive(Debug)]
pub struct KeyMap<V> {
    entries: Vec<(Key, V)>,
}

impl<V: View> KeyMap<V> {
    /// The entries by their views, in the order in which the map holds them.
    pub closed spec fn entries(&self) -> Seq<(Seq<char>, V::V)> {
        Seq::new(self.entries@.len(), |i: int| (self.entries@[i].0@, self.entries@[i].1@))
    }

    /// The invariant of the type: no key occurs twice.
    pub open spec fn wf(&self) -> bool {
        distinct_keys(self.entries())
    }

    /// The map that this value stands for.
    pub open spec fn view(&self) -> Map<Seq<char>, V::V> {
        entries_map(self.entries())
    }

    /// The map without entries.
    pub fn new() -> (map: KeyMap<V>)
        ensures
            map.wf(),
            map.view() == Map::<Seq<char>, V::V>::empty(),
            map.entries().len() == 0,
    {
        let map = KeyMap { entries: Vec::new() };
        proof {
            lemma_entries_empty(map.entries());
        }
        map
    }

    /// The number of entries.
    pub fn len(&self) -> (n: usize)
        ensures
            n == self.entries().len(),
    {
        self.entries.len()
    }

    /// Whether the map has no entries.
    pub fn is_empty(&self) -> (empty: bool)
        requires
            self.wf(),
        ensures
            empty == (self.view() == Map::<Seq<char>, V::V>::empty()),
            empty == (self.entries().len() == 0),
    {
        let empty = self.entries.len() == 0;
        proof {
            if empty {
                lemma_entries_empty(self.entries());
            } else {
                lemma_entry_at(self.entries(), 0);
            }
        }
        empty
    }

    /// The key of the entry at place `i`.
    pub fn key_at(&self, i: usize) -> (key: &Key)
        requires
            i < self.entries().len(),
        ensures
            key@ == self.entries()[i as int].0,
    {
        &self.entries[i].0
    }

    /// The value of the entry at place `i`.
    pub fn value_at(&self, i: usize) -> (value: &V)
        requires
            i < self.entries().len(),
        ensures
            value@ == self.entries()[i as int].1,
    {
        &self.entries[i].1
    }

    /// The place of the entry with the key `key`, if there is one.
    fn find(&self, key: &Key) -> (found: Option<usize>)
        ensures
            match found {
                Some(i) => i < self.entries().len() && self.entries()[i as int].0 == key@,
                None => !has_key(self.entries(), key@),
            },
    {
        let mut i: usize = 0;
        while i < self.entries.len()
            invariant
                i <= self.entries.len(),
                self.entries.len() == self.entries().len(),
                forall|j: int| 0 <= j < i ==> (#[trigger] self.entries()[j]).0 != key@,
            decreases self.entries.len() - i,
        {
            if self.entries[i].0.same(key) {
                return Some(i);
            }
            i += 1;
        }
        None
    }

    /// Whether the map holds a value for `key`.
    pub fn contains_key(&self, key: &Key) -> (found: bool)
        requires
            self.wf(),
        ensures
            found == self.view().contains_key(key@),
    {
        self.find(key).is_some()
    }

    /// The value that the map holds for `key`.
    pub fn get(&self, key: &Key) -> (value: Option<&V>)
        requires
            self.wf(),
        ensures
            match value {
                Some(v) => self.view().contains_key(key@) && self.view()[key@] == v@,
                None => !self.view().contains_key(key@),
            },
    {
        match self.find(key) {
            Some(i) => {
                proof {
                    lemma_entry_at(self.entries(), i as int);
                }
                Some(&self.entries[i].1)
            },
            None => None,
        }
    }

    /// Sets the value for `key`, in place of the one held before if there was
    /// one.
    pub fn insert(&mut self, key: Key, value: V)
        requires
            old(self).wf(),
        ensures
            final(self).wf(),
            final(self).view() == old(self).view().insert(key@, value@),
    {
        let ghost before = self.entries();
        match self.find(&key) {
            Some(i) => {
                proof {
                    lemma_entries_update(before, i as int, value@);
                }
                self.entries.set(i, (key, value));
                assert(self.entries() =~= before.update(i as int, (before[i as int].0, value@)));
            },
            None => {
                proof {
                    lemma_entries_push(before, key@, value@);
                }
                self.entries.push((key, value));
                assert(self.entries() =~= before.push((key@, value@)));
            },
        }
    }

    /// Makes the writes `writes` in their order: each sets the value for its
    /// key.
    pub fn insert_all(&mut self, writes: Vec<(Key, V)>)
        requires
            old(self).wf(),
        ensures
            final(self).wf(),
            final(self).view() == apply_writes(old(self).view(), entry_views(writes@)),
    {
        let ghost all = entry_views(writes@);
        let ghost start = self.view();
        for entry in it: writes.into_iter()
            invariant
                self.wf(),
                it.seq() == writes@,
                all == entry_views(writes@),
                self.view() == apply_writes(start, all.take(it.index() as int)),
        {
            proof {
                let n = it.index() as int;
                assert(all.take(n + 1) =~= all.take(n).push(all[n]));
                lemma_apply_writes_push(start, all.take(n), all[n].0, all[n].1);
            }
            let (key, value) = entry;
            self.insert(key, value);
        }
        assert(all.take(all.len() as int) =~= all);
    }

    /// Takes out the value for `key`, if there is one.
    pub fn remove(&mut self, key: &Key)
        requires
            old(self).wf(),
        ensures
            final(self).wf(),
            final(self).view() == old(self).view().remove(key@),
    {
        let ghost before = self.entries();
        match self.find(key) {
            Some(i) => {
                proof {
                    lemma_entries_remove(before, i as int);
                }
                let _ = self.entries.remove(i);
                assert(self.entries() =~= before.remove(i as int));
            },
            None => {
                assert(self.view() =~= self.view().remove(key@));
            },
        }
    }

    /// Takes out one entry, if there is any.
    pub fn pop(&mut self) -> (entry: Option<(Key, V)>)
        requires
            old(self).wf(),
        ensures
            final(self).wf(),
            match entry {
                Some((key, value)) => {
                    &&& old(self).view().contains_key(key@)
                    &&& old(self).view()[key@] == value@
                    &&& final(self).view() == old(self).view().remove(key@)
                },
                None => {
                    &&& old(self).view() == Map::<Seq<char>, V::V>::empty()
                    &&& final(self).view() == old(self).view()
                },
            },
            entry is Some <==> old(self).entries().len() > 0,
            final(self).entries().len() + (if entry is Some { 1int } else { 0int }) == old(
                self,
            ).entries().len(),
    {
        let ghost before = self.entries();
        let entry = self.entries.pop();
        proof {
            if before.len() > 0 {
                let last = before.len() - 1;
                lemma_entry_at(before, last);
                lemma_entries_remove(before, last);
                assert(self.entries() =~= before.remove(last));
            } else {
                lemma_entries_empty(before);
                assert(self.entries() =~= before);
            }
        }
        entry
    }

    /// Takes out every entry.
    pub fn clear(&mut self)
        ensures
            final(self).wf(),
            final(self).view() == Map::<Seq<char>, V::V>::empty(),
            final(self).entries().len() == 0,
    {
        self.entries.clear();
        proof {
            lemma_entries_empty(self.entries());
        }
    }
}

} // verus!
