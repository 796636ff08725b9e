//! An insertion-ordered map keyed by field name, and its mathematical model:
//! a sequence of (name, value) pairs in which no name occurs twice.

use vstd::prelude::*;
use crate::text::str_eq;
use crate::value::TypedValue;

verus! {

/// The least position in `m` whose name is `key`, or `m.len()` when no entry
/// has that name.
pub open spec fn index_of<T>(m: Seq<(Seq<char>, T)>, key: Seq<char>) -> int
    decreases m.len(),
{
    if m.len() == 0 {
        0
    } else {
        let i = index_of(m.drop_last(), key);
        if i < m.len() - 1 {
            i
        } else if m.last().0 == key {
            m.len() - 1
        } else {
            m.len() as int
        }
    }
}

/// Whether `m` has an entry named `key`.
pub open spec fn has_key<T>(m: Seq<(Seq<char>, T)>, key: Seq<char>) -> bool {
    index_of(m, key) < m.len()
}

/// The value stored under `key`, if any.
pub open spec fn get<T>(m: Seq<(Seq<char>, T)>, key: Seq<char>) -> Option<T> {
    if has_key(m, key) {
        Some(m[index_of(m, key)].1)
    } else {
        None
    }
}

/// `m` after a write of `value` under `key`: an entry of that name keeps its
/// place and takes the new value, a new name is added at the end.
pub open spec fn put<T>(m: Seq<(Seq<char>, T)>, key: Seq<char>, value: T) -> Seq<(Seq<char>, T)> {
    if has_key(m, key) {
        m.update(index_of(m, key), (key, value))
    } else {
        m.push((key, value))
    }
}

/// `m` after the writes of `pairs`, first to last.
pub open spec fn put_all<T>(m: Seq<(Seq<char>, T)>, pairs: Seq<(Seq<char>, T)>) -> Seq<
    (Seq<char>, T),
>
    decreases pairs.len(),
{
    if pairs.len() == 0 {
        m
    } else {
        put(put_all(m, pairs.drop_last()), pairs.last().0, pairs.last().1)
    }
}

/// No name occurs twice in `m`.
pub open spec fn unique_keys<T>(m: Seq<(Seq<char>, T)>) -> bool {
    forall|i: int, j: int| 0 <= i < j < m.len() ==> m[i].0 != m[j].0
}

/// `index_of` is in range, points at `key` when it is below the length, and
/// no entry before it is named `key`.
pub proof fn lemma_index_of<T>(m: Seq<(Seq<char>, T)>, key: Seq<char>)
    ensures
        0 <= index_of(m, key) <= m.len(),
        has_key(m, key) ==> m[index_of(m, key)].0 == key,
        forall|j: int| 0 <= j < index_of(m, key) ==> m[j].0 != key,
    decreases m.len(),
{
    if m.len() > 0 {
        lemma_index_of(m.drop_last(), key);
        assert forall|j: int| 0 <= j < index_of(m, key) implies m[j].0 != key by {
            if j < m.len() - 1 {
                assert(m.drop_last()[j] == m[j]);
            }
        }
    }
}

/// A position that holds `key` (or the length) with no `key` before it is
/// `index_of`.
pub proof fn lemma_index_of_found<T>(m: Seq<(Seq<char>, T)>, key: Seq<char>, i: int)
    requires
        0 <= i <= m.len(),
        i < m.len() ==> m[i].0 == key,
        forall|j: int| 0 <= j < i ==> m[j].0 != key,
    ensures
        index_of(m, key) == i,
{
    lemma_index_of(m, key);
}

/// A write keeps the names unique.
pub proof fn lemma_put_unique<T>(m: Seq<(Seq<char>, T)>, key: Seq<char>, value: T)
    requires
        unique_keys(m),
    ensures
        unique_keys(put(m, key, value)),
{
    lemma_index_of(m, key);
}

/// A write is read back under its own name and leaves every other name as
/// it was.
pub proof fn lemma_get_put<T>(m: Seq<(Seq<char>, T)>, key: Seq<char>, value: T, other: Seq<char>)
    ensures
        get(put(m, key, value), key) == Some(value),
        other != key ==> get(put(m, key, value), other) == get(m, other),
        other != key ==> has_key(put(m, key, value), other) == has_key(m, other),
        has_key(put(m, key, value), key),
{
    lemma_index_of(m, key);
    lemma_index_of(m, other);
    let after = put(m, key, value);
    let i = index_of(m, key);
    lemma_index_of_found(after, key, i);
    if other != key {
        let k = index_of(m, other);
        lemma_index_of_found(after, other, if k < m.len() { k } else { after.len() as int });
    }
}

/// Writing a sequence of pairs removes nothing: a name that is present
/// stays, and a name that none of the pairs is written under keeps its
/// value.
pub proof fn lemma_put_all_keeps<T>(
    m: Seq<(Seq<char>, T)>,
    pairs: Seq<(Seq<char>, T)>,
    key: Seq<char>,
)
    ensures
        has_key(m, key) ==> has_key(put_all(m, pairs), key),
        (forall|k: int| 0 <= k < pairs.len() ==> (#[trigger] pairs[k]).0 != key) ==> get(
            put_all(m, pairs),
            key,
        ) == get(m, key),
    decreases pairs.len(),
{
    if pairs.len() > 0 {
        let rest = pairs.drop_last();
        lemma_put_all_keeps(m, rest, key);
        lemma_get_put(put_all(m, rest), pairs.last().0, pairs.last().1, key);
        if forall|k: int| 0 <= k < pairs.len() ==> (#[trigger] pairs[k]).0 != key {
            assert forall|k: int| 0 <= k < rest.len() implies (#[trigger] rest[k]).0 != key by {
                assert(rest[k] == pairs[k]);
            }
            assert(pairs[pairs.len() - 1].0 != key);
        }
    }
}

/// After a sequence of pairs is written, a name holds the value of the last
/// pair written under it.
pub proof fn lemma_put_all_last_write<T>(m: Seq<(Seq<char>, T)>, pairs: Seq<(Seq<char>, T)>, j: int)
    requires
        0 <= j < pairs.len(),
        forall|k: int| j < k < pairs.len() ==> (#[trigger] pairs[k]).0 != pairs[j].0,
    ensures
        get(put_all(m, pairs), pairs[j].0) == Some(pairs[j].1),
    decreases pairs.len(),
{
    let rest = pairs.drop_last();
    if j == pairs.len() - 1 {
        lemma_get_put(put_all(m, rest), pairs[j].0, pairs[j].1, pairs[j].0);
    } else {
        assert(rest[j] == pairs[j]);
        assert forall|k: int| j < k < rest.len() implies (#[trigger] rest[k]).0 != rest[j].0 by {
            assert(rest[k] == pairs[k]);
        }
        lemma_put_all_last_write(m, rest, j);
        assert(pairs[pairs.len() - 1].0 != pairs[j].0);
        lemma_get_put(put_all(m, rest), pairs.last().0, pairs.last().1, pairs[j].0);
    }
}

/// An insertion-ordered map from field names to values of type `V`.
///
/// A name occurs at most once. Writing under a name that is present replaces
/// the value in place; a new name goes to the end.
pub struct OrderedMap<V: View> {
    entries: Vec<(String, V)>,
}

impl<V: View> View for OrderedMap<V> {
    type V = Seq<(Seq<char>, V::V)>;

    closed spec fn view(&self) -> Seq<(Seq<char>, V::V)> {
        Seq::new(self.entries@.len(), |i: int| (self.entries@[i].0@, self.entries@[i].1@))
    }
}

impl<V: View> OrderedMap<V> {
    #[verifier::type_invariant]
    spec fn well_formed(&self) -> bool {
        unique_keys(self@)
    }

    /// An empty map.
    pub fn new() -> (map: Self)
        ensures
            map@ == Seq::<(Seq<char>, V::V)>::empty(),
            unique_keys(map@),
    {
        let map = OrderedMap { entries: Vec::new() };
        assert(map@ =~= Seq::<(Seq<char>, V::V)>::empty());
        map
    }

    /// The number of entries.
    pub fn len(&self) -> (n: usize)
        ensures
            n == self@.len(),
            unique_keys(self@),
    {
        proof {
            use_type_invariant(self);
        }
        self.entries.len()
    }

    /// Whether the map has no entry.
    pub fn is_empty(&self) -> (empty: bool)
        ensures
            empty == (self@.len() == 0),
    {
        self.entries.len() == 0
    }

    /// The entry at position `i`, counted in the order of insertion, if
    /// there is one.
    pub fn entry(&self, i: usize) -> (entry: Option<(&str, &V)>)
        ensures
            match entry {
                Some((key, value)) => i < self@.len() && key@ == self@[i as int].0 && value@
                    == self@[i as int].1,
                None => i >= self@.len(),
            },
    {
        if i < self.entries.len() {
            Some((self.entries[i].0.as_str(), &self.entries[i].1))
        } else {
            None
        }
    }

    /// The name of the entry at position `i`.
    pub(crate) fn key_at(&self, i: usize) -> (key: &str)
        requires
            i < self@.len(),
        ensures
            key@ == self@[i as int].0,
    {
        self.entries[i].0.as_str()
    }

    /// The value of the entry at position `i`.
    pub(crate) fn value_at(&self, i: usize) -> (value: &V)
        requires
            i < self@.len(),
        ensures
            value@ == self@[i as int].1,
    {
        &self.entries[i].1
    }

    /// The position of the entry named `key`, or `len()` when there is none.
    pub fn position(&self, key: &str) -> (i: usize)
        ensures
            i == index_of(self@, key@),
            i <= self@.len(),
    {
        let mut i: usize = 0;
        while i < self.entries.len()
            invariant
                i <= self.entries@.len(),
                forall|j: int| 0 <= j < i ==> self@[j].0 != key@,
            decreases self.entries@.len() - i,
        {
            if str_eq(self.entries[i].0.as_str(), key) {
                proof {
                    lemma_index_of_found(self@, key@, i as int);
                }
                return i;
            }
            i += 1;
        }
        proof {
            lemma_index_of_found(self@, key@, i as int);
        }
        i
    }

    /// Whether an entry is named `key`.
    pub fn contains_key(&self, key: &str) -> (found: bool)
        ensures
            found == has_key(self@, key@),
    {
        self.position(key) < self.entries.len()
    }

    /// The value stored under `key`, if any.
    pub fn get(&self, key: &str) -> (value: Option<&V>)
        ensures
            match value {
                Some(v) => get(self@, key@) == Some(v@),
                None => get(self@, key@) is None,
            },
    {
        let i = self.position(key);
        if i < self.entries.len() {
            Some(&self.entries[i].1)
        } else {
            None
        }
    }

    /// Writes `value` under `key`; the last write to a name wins.
    pub fn insert(&mut self, key: String, value: V)
        ensures
            final(self)@ == put(old(self)@, key@, value@),
            unique_keys(final(self)@),
    {
        let i = self.position(key.as_str());
        proof {
            use_type_invariant(&*self);
            lemma_put_unique(self@, key@, value@);
        }
        let mut entries: Vec<(String, V)> = Vec::new();
        core::mem::swap(&mut self.entries, &mut entries);
        if i < entries.len() {
            entries.set(i, (key, value));
        } else {
            entries.push((key, value));
        }
        let ghost after = Seq::new(entries@.len(), |j: int| (entries@[j].0@, entries@[j].1@));
        assert(after =~= put(old(self)@, key@, value@));
        core::mem::swap(&mut self.entries, &mut entries);
        assert(self@ =~= after);
    }
}

impl Clone for OrderedMap<TypedValue> {
    /// A copy that later writes to `self` do not reach.
    fn clone(&self) -> (copy: Self)
        ensures
            copy@ == self@,
            unique_keys(copy@),
    {
        proof {
            use_type_invariant(self);
        }
        let mut entries: Vec<(String, TypedValue)> = Vec::new();
        let mut i: usize = 0;
        while i < self.entries.len()
            invariant
                i <= self.entries@.len(),
                entries@.len() == i,
                forall|j: int|
                    0 <= j < i ==> entries@[j].0@ == self.entries@[j].0@ && entries@[j].1@
                        == self.entries@[j].1@,
            decreases self.entries@.len() - i,
        {
            entries.push((self.entries[i].0.clone(), self.entries[i].1.clone()));
            i += 1;
        }
        let ghost after = Seq::new(entries@.len(), |j: int| (entries@[j].0@, entries@[j].1@));
        assert(after =~= self@);
        let copy = OrderedMap { entries };
        assert(copy@ =~= after);
        copy
    }
}

} // verus!
