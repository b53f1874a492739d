//! An insertion-ordered map.
//!
//! The map is modelled by the sequence of its entries, each a key (by its
//! view) with its value. No key occurs twice, and an entry keeps its place
//! for as long as its key stays in the map.

use vstd::prelude::*;

verus! {

/// A key of an `OrderedMap`: two keys are the same key when their views are equal.
pub trait Key: View + Sized {
    /// Decides whether `self` and `other` are the same key.
    fn same_key(&self, other: &Self) -> (same: bool)
        ensures
            same == (self@ == other@),
    ;
}

impl Key for String {
    fn same_key(&self, other: &Self) -> (same: bool) {
        *self == *other
    }
}

/// True when some entry of `s` has key `k`.
pub open spec fn has_key<K, V>(s: Seq<(K, V)>, k: K) -> bool {
    exists|i: int| 0 <= i < s.len() && (#[trigger] s[i]).0 == k
}

/// The place of an entry of `s` with key `k`; arbitrary when there is none.
pub open spec fn key_index<K, V>(s: Seq<(K, V)>, k: K) -> int {
    choose|i: int| 0 <= i < s.len() && (#[trigger] s[i]).0 == k
}

/// The value that `s` holds under key `k`; arbitrary when there is none.
pub open spec fn value_of<K, V>(s: Seq<(K, V)>, k: K) -> V {
    s[key_index(s, k)].1
}

/// True when no two entries of `s` share a key.
pub open spec fn distinct_keys<K, V>(s: Seq<(K, V)>) -> bool {
    forall|i: int, j: int|
        0 <= i < j < s.len() ==> (#[trigger] s[i]).0 != (#[trigger] s[j]).0
}

/// The keys of `s` as a set.
pub open spec fn key_set<K, V>(s: Seq<(K, V)>) -> Set<K> {
    Set::new(|k: K| has_key(s, k))
}

/// The entries of `s` as a mathematical map.
pub open spec fn as_map<K, V>(s: Seq<(K, V)>) -> Map<K, V> {
    Map::new(|k: K| has_key(s, k), |k: K| value_of(s, k))
}

/// `s` with `v` under `k`: in the place of the entry that has this key, or
/// at the end when the key is new.
pub open spec fn with_entry<K, V>(s: Seq<(K, V)>, k: K, v: V) -> Seq<(K, V)> {
    if has_key(s, k) {
        s.update(key_index(s, k), (k, v))
    } else {
        s.push((k, v))
    }
}

/// `s` without the entry under `k`.
pub open spec fn without_key<K, V>(s: Seq<(K, V)>, k: K) -> Seq<(K, V)> {
    if has_key(s, k) {
        s.remove(key_index(s, k))
    } else {
        s
    }
}

/// With distinct keys, the entry at place `i` is the one found under its key.
pub proof fn lemma_key_index_unique<K, V>(s: Seq<(K, V)>, i: int)
    requires
        distinct_keys(s),
        0 <= i < s.len(),
    ensures
        has_key(s, s[i].0),
        key_index(s, s[i].0) == i,
        value_of(s, s[i].0) == s[i].1,
{
    let k = s[i].0;
    let j = key_index(s, k);
    assert(0 <= j < s.len() && s[j].0 == k);
    if j != i {
        if j < i {
            assert(s[j].0 != s[i].0);
        } else {
            assert(s[i].0 != s[j].0);
        }
    }
}

/// The front of a list with distinct keys has distinct keys, and holds
/// under a key what the whole list holds under it.
pub proof fn lemma_front<K, V>(entries: Seq<(K, V)>)
    requires
        distinct_keys(entries),
        entries.len() > 0,
    ensures
        distinct_keys(entries.drop_last()),
        !has_key(entries.drop_last(), entries.last().0),
        has_key(entries, entries.last().0),
        value_of(entries, entries.last().0) == entries.last().1,
        forall|name: K| #[trigger]
            has_key(entries, name) <==> name == entries.last().0 || has_key(
                entries.drop_last(),
                name,
            ),
        forall|name: K| #[trigger]
            has_key(entries.drop_last(), name) ==> value_of(entries.drop_last(), name) == value_of(
                entries,
                name,
            ),
{
    let front = entries.drop_last();
    let last = entries.len() - 1;
    assert forall|i: int, j: int| 0 <= i < j < front.len() implies (#[trigger] front[i]).0 != (
    #[trigger] front[j]).0 by {
        assert(front[i] == entries[i]);
        assert(front[j] == entries[j]);
    }
    lemma_key_index_unique(entries, last);
    if has_key(front, entries.last().0) {
        let i = key_index(front, entries.last().0);
        assert(front[i] == entries[i]);
        assert(entries[i].0 != entries[last].0);
    }
    assert forall|name: K| #[trigger] has_key(front, name) implies has_key(entries, name)
        && value_of(front, name) == value_of(entries, name) by {
        let i = key_index(front, name);
        assert(front[i] == entries[i]);
        lemma_key_index_unique(entries, i);
        lemma_key_index_unique(front, i);
    }
    assert forall|name: K| #[trigger] has_key(entries, name) implies name
        == entries.last().0 || has_key(front, name) by {
        let i = key_index(entries, name);
        if i < last {
            assert(front[i] == entries[i]);
        }
    }
}

/// Putting an entry keeps the keys distinct, and the map view gains the entry.
pub proof fn lemma_with_entry<K, V>(s: Seq<(K, V)>, k: K, v: V)
    requires
        distinct_keys(s),
    ensures
        distinct_keys(with_entry(s, k, v)),
        as_map(with_entry(s, k, v)) == as_map(s).insert(k, v),
{
    let t = with_entry(s, k, v);
    if has_key(s, k) {
        let i = key_index(s, k);
        assert(0 <= i < s.len() && s[i].0 == k);
        assert forall|a: int, b: int| 0 <= a < b < t.len() implies (#[trigger] t[a]).0 != (
        #[trigger] t[b]).0 by {
            assert(t[a].0 == s[a].0);
            assert(t[b].0 == s[b].0);
        }
        assert forall|q: K| has_key(t, q) == (q == k || has_key(s, q)) by {
            if has_key(t, q) {
                let j = key_index(t, q);
                assert(t[j].0 == s[j].0);
            }
            if has_key(s, q) {
                let j = key_index(s, q);
                assert(t[j].0 == s[j].0);
            }
            if q == k {
                assert(t[i].0 == k);
            }
        }
        assert forall|q: K| has_key(t, q) implies value_of(t, q) == (if q == k {
            v
        } else {
            value_of(s, q)
        }) by {
            let j = key_index(t, q);
            lemma_key_index_unique(t, j);
            assert(t[j].0 == s[j].0);
            lemma_key_index_unique(s, j);
        }
    } else {
        assert forall|a: int, b: int| 0 <= a < b < t.len() implies (#[trigger] t[a]).0 != (
        #[trigger] t[b]).0 by {
            if b == s.len() {
                assert(t[a] == s[a]);
            } else {
                assert(t[a] == s[a]);
                assert(t[b] == s[b]);
            }
        }
        assert forall|q: K| has_key(t, q) == (q == k || has_key(s, q)) by {
            if has_key(t, q) {
                let j = key_index(t, q);
                if j < s.len() {
                    assert(t[j] == s[j]);
                }
            }
            if has_key(s, q) {
                let j = key_index(s, q);
                assert(t[j] == s[j]);
            }
            if q == k {
                assert(t[s.len() as int].0 == k);
            }
        }
        assert forall|q: K| has_key(t, q) implies value_of(t, q) == (if q == k {
            v
        } else {
            value_of(s, q)
        }) by {
            let j = key_index(t, q);
            lemma_key_index_unique(t, j);
            if j < s.len() {
                assert(t[j] == s[j]);
                lemma_key_index_unique(s, j);
            }
        }
    }
    assert(as_map(t) =~= as_map(s).insert(k, v));
}

/// Taking an entry out keeps the keys distinct, and the map view loses the key.
pub proof fn lemma_without_key<K, V>(s: Seq<(K, V)>, k: K)
    requires
        distinct_keys(s),
    ensures
        distinct_keys(without_key(s, k)),
        as_map(without_key(s, k)) == as_map(s).remove(k),
{
    let t = without_key(s, k);
    if has_key(s, k) {
        let i = key_index(s, k);
        assert(0 <= i < s.len() && s[i].0 == k);
        assert forall|a: int| 0 <= a < t.len() implies #[trigger] t[a] == s[if a < i {
            a
        } else {
            a + 1
        }] by {}
        assert forall|a: int, b: int| 0 <= a < b < t.len() implies (#[trigger] t[a]).0 != (
        #[trigger] t[b]).0 by {
            let a2 = if a < i { a } else { a + 1 };
            let b2 = if b < i { b } else { b + 1 };
            assert(t[a] == s[a2]);
            assert(t[b] == s[b2]);
        }
        assert forall|q: K| has_key(t, q) == (q != k && has_key(s, q)) by {
            if has_key(t, q) {
                let j = key_index(t, q);
                let j2 = if j < i { j } else { j + 1 };
                assert(t[j] == s[j2]);
                if q == k {
                    lemma_key_index_unique(s, j2);
                }
            }
            if q != k && has_key(s, q) {
                let j = key_index(s, q);
                let j2 = if j < i { j } else { j - 1 };
                assert(t[j2] == s[j]);
            }
        }
        assert forall|q: K| has_key(t, q) implies value_of(t, q) == value_of(s, q) by {
            let j = key_index(t, q);
            lemma_key_index_unique(t, j);
            let j2 = if j < i { j } else { j + 1 };
            assert(t[j] == s[j2]);
            lemma_key_index_unique(s, j2);
        }
    }
    assert(as_map(t) =~= as_map(s).remove(k));
}

/// The model of a list of stored entries: each key by its view.
pub open spec fn entries_view<K: View, V>(entries: Seq<(K, V)>) -> Seq<(K::V, V)> {
    Seq::new(entries.len(), |i: int| (entries[i].0@, entries[i].1))
}

/// An insertion-ordered map from keys of type `K` to values of type `V`.
#[derive(Debug)]
pub struct OrderedMap<K: Key, V> {
    entries: Vec<(K, V)>,
}

impl<K: Key, V> View for OrderedMap<K, V> {
    type V = Seq<(K::V, V)>;

    closed spec fn view(&self) -> Seq<(K::V, V)> {
        entries_view(self.entries@)
    }
}

impl<K: Key, V> OrderedMap<K, V> {
    /// No key occurs twice.
    #[verifier::type_invariant]
    pub open spec fn wf(&self) -> bool {
        distinct_keys(self@)
    }

    /// Creates an empty map.
    pub fn new() -> (m: Self)
        ensures
            m@ == Seq::<(K::V, V)>::empty(),
    {
        OrderedMap { entries: Vec::new() }
    }

    /// Number of entries.
    pub fn len(&self) -> (n: usize)
        ensures
            n == self@.len(),
    {
        self.entries.len()
    }

    /// Place of the entry under `key`, if there is one.
    pub fn find(&self, key: &K) -> (found: Option<usize>)
        ensures
            match found {
                Some(i) => i < self@.len() && self@[i as int].0 == key@ && has_key(self@, key@)
                    && key_index(self@, key@) == i,
                None => !has_key(self@, key@),
            },
    {
        proof {
            use_type_invariant(self);
        }
        let mut i: usize = 0;
        while i < self.entries.len()
            invariant
                i <= self.entries.len(),
                distinct_keys(self@),
                forall|j: int| 0 <= j < i ==> (#[trigger] self@[j]).0 != key@,
            decreases self.entries.len() - i,
        {
            if self.entries[i].0.same_key(key) {
                proof {
                    lemma_key_index_unique(self@, i as int);
                }
                return Some(i);
            }
            i += 1;
        }
        None
    }

    /// The key at place `i`.
    pub fn key_at(&self, i: usize) -> (key: &K)
        requires
            i < self@.len(),
        ensures
            key@ == self@[i as int].0,
    {
        &self.entries[i].0
    }

    /// The value at place `i`.
    pub fn value_at(&self, i: usize) -> (value: &V)
        requires
            i < self@.len(),
        ensures
            *value == self@[i as int].1,
    {
        &self.entries[i].1
    }

    /// True when the map holds an entry under `key`.
    pub fn contains_key(&self, key: &K) -> (found: bool)
        ensures
            found == has_key(self@, key@),
    {
        self.find(key).is_some()
    }

    /// The value under `key`, if there is one.
    pub fn get(&self, key: &K) -> (value: Option<&V>)
        ensures
            match value {
                Some(v) => has_key(self@, key@) && *v == value_of(self@, key@),
                None => !has_key(self@, key@),
            },
    {
        match self.find(key) {
            Some(i) => Some(&self.entries[i].1),
            None => None,
        }
    }

    /// Puts `value` under `key`: in the place of the entry that has this key,
    /// or at the end when the key is new.
    pub fn insert(&mut self, key: K, value: V)
        ensures
            final(self)@ == with_entry(old(self)@, key@, value),
    {
        proof {
            use_type_invariant(&*self);
        }
        let found = self.find(&key);
        let ghost before = self@;
        let mut entries: Vec<(K, V)> = Vec::new();
        core::mem::swap(&mut self.entries, &mut entries);
        match found {
            Some(i) => {
                entries.set(i, (key, value));
            },
            None => {
                entries.push((key, value));
            },
        }
        proof {
            assert(entries_view(entries@) =~= with_entry(before, key@, value));
            lemma_with_entry(before, key@, value);
        }
        core::mem::swap(&mut self.entries, &mut entries);
    }

    /// Takes the entry under `key` out of the map and returns its value.
    pub fn remove(&mut self, key: &K) -> (value: Option<V>)
        ensures
            final(self)@ == without_key(old(self)@, key@),
            match value {
                Some(v) => has_key(old(self)@, key@) && v == value_of(old(self)@, key@),
                None => !has_key(old(self)@, key@),
            },
    {
        proof {
            use_type_invariant(&*self);
        }
        match self.find(key) {
            Some(i) => {
                let ghost before = self@;
                let mut entries: Vec<(K, V)> = Vec::new();
                core::mem::swap(&mut self.entries, &mut entries);
                let entry = entries.remove(i);
                proof {
                    assert(entries_view(entries@) =~= without_key(before, key@));
                    lemma_without_key(before, key@);
                }
                core::mem::swap(&mut self.entries, &mut entries);
                Some(entry.1)
            },
            None => None,
        }
    }

    /// Builds a map from entries whose keys are distinct.
    pub fn from_entries(entries: Vec<(K, V)>) -> (m: Self)
        requires
            distinct_keys(entries_view(entries@)),
        ensures
            m@ == entries_view(entries@),
    {
        OrderedMap { entries }
    }

    /// Gives up the map for the list of its entries, in order.
    pub fn into_entries(self) -> (entries: Vec<(K, V)>)
        ensures
            entries_view(entries@) == self@,
            distinct_keys(self@),
    {
        proof {
            use_type_invariant(&self);
        }
        self.entries
    }
}

} // verus!
