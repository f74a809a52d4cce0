//! A small map from strings to values that keeps its entries in the order
//! in which the keys were first inserted.
//!
//! The tables of the reconciler are small (tens of entries) and are walked in
//! order at least as often as they are searched, so the map is a vector of
//! pairs. Its invariant, [`StrMap::wf`], is that no key occurs twice.

use vstd::prelude::*;

verus! {

/// The index of the first occurrence of `key` in `keys`, or `-1` where there
/// is none.
pub open spec fn index_in(keys: Seq<Seq<char>>, key: Seq<char>) -> int
    decreases keys.len(),
{
    if keys.len() == 0 {
        -1
    } else {
        let before = index_in(keys.drop_last(), key);
        if before >= 0 {
            before
        } else if keys.last() == key {
            keys.len() - 1
        } else {
            -1
        }
    }
}

/// What [`index_in`] returns: the index of an occurrence of the key, with
/// none before it; or `-1`, with no occurrence at all.
pub proof fn lemma_index_in(keys: Seq<Seq<char>>, key: Seq<char>)
    ensures
        -1 <= index_in(keys, key) < keys.len(),
        index_in(keys, key) >= 0 ==> keys[index_in(keys, key)] == key,
        forall|j: int| 0 <= j < index_in(keys, key) ==> keys[j] != key,
        index_in(keys, key) == -1 ==> forall|j: int| 0 <= j < keys.len() ==> keys[j] != key,
    decreases keys.len(),
{
    if keys.len() > 0 {
        lemma_index_in(keys.drop_last(), key);
        assert forall|j: int| 0 <= j < keys.len() - 1 implies keys[j] == keys.drop_last()[j] by {}
    }
}

/// The keys of the entries, in order.
pub open spec fn keys_of<V>(entries: Seq<(String, V)>) -> Seq<Seq<char>> {
    Seq::new(entries.len(), |i: int| entries[i].0@)
}

/// The index of the first entry whose key is `key`, or `-1` where there is
/// none.
pub open spec fn position<V>(entries: Seq<(String, V)>, key: Seq<char>) -> int {
    index_in(keys_of(entries), key)
}

/// The value of the first entry whose key is `key`.
pub open spec fn value_at<V>(entries: Seq<(String, V)>, key: Seq<char>) -> Option<V> {
    if position(entries, key) >= 0 {
        Some(entries[position(entries, key)].1)
    } else {
        None
    }
}

/// Whether no key occurs twice.
pub open spec fn distinct_keys<V>(entries: Seq<(String, V)>) -> bool {
    forall|i: int, j: int| 0 <= i < j < entries.len() ==> entries[i].0@ != entries[j].0@
}

/// What [`position`] returns: the index of an entry with that key, with no
/// such entry before it; or `-1`, with no such entry at all.
pub proof fn lemma_position<V>(entries: Seq<(String, V)>, key: Seq<char>)
    ensures
        -1 <= position(entries, key) < entries.len(),
        position(entries, key) >= 0 ==> entries[position(entries, key)].0@ == key,
        forall|j: int| 0 <= j < position(entries, key) ==> entries[j].0@ != key,
        position(entries, key) == -1 ==> forall|j: int|
            0 <= j < entries.len() ==> entries[j].0@ != key,
{
    let keys = keys_of(entries);
    lemma_index_in(keys, key);
    let p = index_in(keys, key);
    assert forall|j: int| 0 <= j < entries.len() && (j < p || p == -1) implies entries[j].0@
        != key by {
        assert(keys[j] == entries[j].0@);
    }
}

/// An entry with the key, with none before it, is where [`position`] points.
pub proof fn lemma_position_is<V>(entries: Seq<(String, V)>, key: Seq<char>, i: int)
    requires
        0 <= i < entries.len(),
        entries[i].0@ == key,
        forall|j: int| 0 <= j < i ==> entries[j].0@ != key,
    ensures
        position(entries, key) == i,
{
    lemma_position(entries, key);
}

/// Without an entry with the key, [`position`] is `-1`.
pub proof fn lemma_position_none<V>(entries: Seq<(String, V)>, key: Seq<char>)
    requires
        forall|j: int| 0 <= j < entries.len() ==> entries[j].0@ != key,
    ensures
        position(entries, key) == -1,
{
    lemma_position(entries, key);
}

/// A map from strings to values, in insertion order.
#[derive(Debug)]
pub struct StrMap<V> {
    pub entries: Vec<(String, V)>,
}

impl<V: View> StrMap<V> {
    /// The map from each key to the view of its value.
    pub open spec fn map_view(&self) -> Map<Seq<char>, V::V> {
        Map::new(|k: Seq<char>| self.has(k), |k: Seq<char>| self.entries@[self.index_of(k)].1@)
    }
}

/// The value that a map holds for a key, if any.
pub open spec fn lookup<V>(m: Map<Seq<char>, V>, key: Seq<char>) -> Option<V> {
    if m.dom().contains(key) {
        Some(m[key])
    } else {
        None
    }
}

impl<V> StrMap<V> {
    /// No key occurs twice.
    pub open spec fn wf(&self) -> bool {
        distinct_keys(self.entries@)
    }

    /// The keys, in order.
    pub open spec fn keys(&self) -> Seq<Seq<char>> {
        keys_of(self.entries@)
    }

    /// The index of the entry for `key`, or `-1`.
    pub open spec fn index_of(&self, key: Seq<char>) -> int {
        position(self.entries@, key)
    }

    /// Whether there is an entry for `key`.
    pub open spec fn has(&self, key: Seq<char>) -> bool {
        position(self.entries@, key) >= 0
    }

    /// The value stored for `key`.
    pub open spec fn value_of(&self, key: Seq<char>) -> Option<V> {
        value_at(self.entries@, key)
    }

    /// An empty map.
    pub fn new() -> (r: Self)
        ensures
            r.entries@.len() == 0,
            r.wf(),
    {
        StrMap { entries: Vec::new() }
    }

    /// The number of entries.
    pub fn len(&self) -> (r: usize)
        ensures
            r == self.entries@.len(),
    {
        self.entries.len()
    }

    /// Whether the map has no entry.
    pub fn is_empty(&self) -> (r: bool)
        ensures
            r == (self.entries@.len() == 0),
    {
        self.entries.len() == 0
    }

    /// Whether no key occurs twice: the check that a table built by other
    /// means than the methods of this type has to pass before it is used.
    pub fn is_wf(&self) -> (r: bool)
        ensures
            r == self.wf(),
    {
        let mut j: usize = 0;
        while j < self.entries.len()
            invariant
                j <= self.entries@.len(),
                forall|a: int, b: int|
                    0 <= a < b < j ==> self.entries@[a].0@ != self.entries@[b].0@,
            decreases self.entries@.len() - j,
        {
            let mut i: usize = 0;
            while i < j
                invariant
                    i <= j < self.entries@.len(),
                    forall|a: int| 0 <= a < i ==> self.entries@[a].0@ != self.entries@[j as int].0@,
                decreases j - i,
            {
                if self.entries[i].0.as_str().eq(self.entries[j].0.as_str()) {
                    return false;
                }
                i += 1;
            }
            j += 1;
        }
        true
    }

    /// The index of the entry for `key`.
    pub fn find(&self, key: &str) -> (r: Option<usize>)
        ensures
            match r {
                Some(i) => i == self.index_of(key@) && i < self.entries@.len()
                    && self.entries@[i as int].0@ == key@,
                None => !self.has(key@),
            },
    {
        let mut i: usize = 0;
        while i < self.entries.len()
            invariant
                i <= self.entries.len(),
                forall|j: int| 0 <= j < i ==> self.entries@[j].0@ != key@,
            decreases self.entries.len() - i,
        {
            if self.entries[i].0.as_str().eq(key) {
                proof {
                    lemma_position_is(self.entries@, key@, i as int);
                }
                return Some(i);
            }
            i += 1;
        }
        proof {
            lemma_position_none(self.entries@, key@);
        }
        None
    }

    /// Whether there is an entry for `key`.
    pub fn contains_key(&self, key: &str) -> (r: bool)
        ensures
            r == self.has(key@),
    {
        self.find(key).is_some()
    }

    /// The value stored for `key`.
    pub fn get(&self, key: &str) -> (r: Option<&V>)
        ensures
            r.is_some() == self.has(key@),
            r matches Some(v) ==> self.value_of(key@) == Some(*v),
    {
        match self.find(key) {
            Some(i) => Some(&self.entries[i].1),
            None => None,
        }
    }

    /// Stores `value` for `key`. An entry that is there keeps its place and
    /// gets the new value, and the old value is returned; a new entry goes
    /// to the end.
    pub fn insert(&mut self, key: String, value: V) -> (r: Option<V>)
        requires
            old(self).wf(),
        ensures
            final(self).wf(),
            r == old(self).value_of(key@),
            match r {
                Some(_) => final(self).entries@ == old(self).entries@.update(
                    old(self).index_of(key@),
                    (old(self).entries@[old(self).index_of(key@)].0, value),
                ),
                None => final(self).entries@ == old(self).entries@.push((key, value)),
            },
            final(self).value_of(key@) == Some(value),
            forall|k: Seq<char>| k != key@ ==> final(self).value_of(k) == old(self).value_of(k),
            forall|k: Seq<char>| k != key@ ==> final(self).index_of(k) == old(self).index_of(k),
            final(self).has(key@),
    {
        let ghost before = self.entries@;
        match self.find(key.as_str()) {
            Some(i) => {
                let mut slot = value;
                core::mem::swap(&mut self.entries[i].1, &mut slot);
                proof {
                    let after = self.entries@;
                    assert(after =~= before.update(i as int, (before[i as int].0, value)));
                    assert forall|k: Seq<char>| position(after, k) == position(before, k) by {
                        lemma_position(before, k);
                        lemma_position(after, k);
                        let p = position(before, k);
                        if p >= 0 {
                            lemma_position_is(after, k, p);
                        } else {
                            lemma_position_none(after, k);
                        }
                    }
                    assert forall|k: Seq<char>| k != key@ implies value_at(after, k) == value_at(
                        before,
                        k,
                    ) by {
                        lemma_position(before, k);
                    }
                }
                Some(slot)
            },
            None => {
                self.entries.push((key, value));
                proof {
                    let after = self.entries@;
                    lemma_position(before, key@);
                    lemma_position_is(after, key@, before.len() as int);
                    assert forall|k: Seq<char>| k != key@ implies position(after, k) == position(
                        before,
                        k,
                    ) && value_at(after, k) == value_at(before, k) by {
                        lemma_position(before, k);
                        let p = position(before, k);
                        if p >= 0 {
                            lemma_position_is(after, k, p);
                        } else {
                            lemma_position_none(after, k);
                        }
                    }
                }
                None
            },
        }
    }

    /// Removes the entry for `key` and returns its value. The other entries
    /// keep their order.
    pub fn remove(&mut self, key: &str) -> (r: Option<V>)
        requires
            old(self).wf(),
        ensures
            final(self).wf(),
            r == old(self).value_of(key@),
            match r {
                Some(_) => final(self).entries@ == old(self).entries@.remove(
                    old(self).index_of(key@),
                ),
                None => final(self).entries@ == old(self).entries@,
            },
            !final(self).has(key@),
            forall|k: Seq<char>| k != key@ ==> final(self).value_of(k) == old(self).value_of(k),
    {
        let ghost before = self.entries@;
        match self.find(key) {
            Some(i) => {
                let (_, value) = self.entries.remove(i);
                proof {
                    let after = self.entries@;
                    assert(after =~= before.remove(i as int));
                    lemma_position_none(after, key@);
                    assert forall|k: Seq<char>| k != key@ implies value_at(after, k) == value_at(
                        before,
                        k,
                    ) by {
                        lemma_position(before, k);
                        let p = position(before, k);
                        if p >= 0 {
                            if p < i {
                                lemma_position_is(after, k, p);
                            } else {
                                lemma_position_is(after, k, p - 1);
                            }
                        } else {
                            lemma_position_none(after, k);
                        }
                    }
                }
                Some(value)
            },
            None => None,
        }
    }
}

/// A map that agrees with another one everywhere but at `key`, where it
/// holds `value`, is that map with `value` inserted.
pub proof fn lemma_inserted_view<V: View>(
    before: StrMap<V>,
    after: StrMap<V>,
    key: Seq<char>,
    value: V,
)
    requires
        after.value_of(key) == Some(value),
        forall|k: Seq<char>| k != key ==> after.value_of(k) == before.value_of(k),
    ensures
        after.map_view() == before.map_view().insert(key, value@),
{
    assert forall|k: Seq<char>| #[trigger]
        after.map_view().dom().contains(k) == before.map_view().insert(
            key,
            value@,
        ).dom().contains(k) by {
        if k != key {
            assert(after.value_of(k) == before.value_of(k));
        }
    }
    assert forall|k: Seq<char>| #[trigger] after.map_view().dom().contains(k) implies after.map_view()[k]
        == before.map_view().insert(key, value@)[k] by {
        if k != key {
            assert(after.value_of(k) == before.value_of(k));
        }
    }
    assert(after.map_view() =~= before.map_view().insert(key, value@));
}

/// A map that agrees with another one everywhere but at `key`, which it
/// does not hold, is that map with `key` removed.
pub proof fn lemma_removed_view<V: View>(before: StrMap<V>, after: StrMap<V>, key: Seq<char>)
    requires
        !after.has(key),
        forall|k: Seq<char>| k != key ==> after.value_of(k) == before.value_of(k),
    ensures
        after.map_view() == before.map_view().remove(key),
{
    assert forall|k: Seq<char>| #[trigger]
        after.map_view().dom().contains(k) == before.map_view().remove(key).dom().contains(
            k,
        ) by {
        if k != key {
            assert(after.value_of(k) == before.value_of(k));
        }
    }
    assert forall|k: Seq<char>| #[trigger] after.map_view().dom().contains(k) implies after.map_view()[k]
        == before.map_view().remove(key)[k] by {
        if k != key {
            assert(after.value_of(k) == before.value_of(k));
        }
    }
    assert(after.map_view() =~= before.map_view().remove(key));
}

/// What a map holds for a key is the view of what the table holds for it.
pub proof fn lemma_lookup_view<V: View>(m: StrMap<V>, key: Seq<char>)
    ensures
        lookup(m.map_view(), key) == match m.value_of(key) {
            Some(v) => Some(v@),
            None => None,
        },
{
}

} // verus!
