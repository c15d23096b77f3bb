//! Insertion-ordered maps and sets, held in vectors, for keys that can be told apart exactly.

use vstd::prelude::*;

verus! {

/// A key of a `VecMap` or an element of a `VecSet`.
pub trait MapKey: Sized + Copy {
    /// Returns whether `self` and `other` are the same key.
    fn same(&self, other: &Self) -> (b: bool)
        ensures
            b == (*self == *other),
    ;
}

impl MapKey for u64 {
    fn same(&self, other: &u64) -> (b: bool) {
        *self == *other
    }
}

impl MapKey for u32 {
    fn same(&self, other: &u32) -> (b: bool) {
        *self == *other
    }
}

/// No two entries share a key.
pub open spec fn keys_distinct<K, V>(s: Seq<(K, V)>) -> bool {
    forall|i: int, j: int| 0 <= i < j < s.len() ==> (#[trigger] s[i]).0 != (#[trigger] s[j]).0
}

/// Some entry has the key `k`.
pub open spec fn has_key<K, V>(s: Seq<(K, V)>, k: K) -> bool {
    exists|i: int| 0 <= i < s.len() && (#[trigger] s[i]).0 == k
}

/// The position of an entry with the key `k`.
pub open spec fn key_index<K, V>(s: Seq<(K, V)>, k: K) -> int {
    choose|i: int| 0 <= i < s.len() && (#[trigger] s[i]).0 == k
}

/// The map that a sequence of entries stands for.
pub open spec fn entry_map<K, V>(s: Seq<(K, V)>) -> Map<K, V> {
    Map::new(|k: K| has_key(s, k), |k: K| s[key_index(s, k)].1)
}

/// The entries of a map that satisfy a predicate.
pub open spec fn select<K, V>(m: Map<K, V>, p: spec_fn(K, V) -> bool) -> Map<K, V> {
    Map::new(|k: K| m.contains_key(k) && p(k, m[k]), |k: K| m[k])
}

/// `p` as a predicate on entries.
pub open spec fn on_entry<K, V>(p: spec_fn(K, V) -> bool) -> spec_fn((K, V)) -> bool {
    |e: (K, V)| p(e.0, e.1)
}

/// The entry at position `i` of distinct entries is what the map holds for its key.
pub proof fn lemma_entry_map_at<K, V>(s: Seq<(K, V)>, i: int)
    requires
        keys_distinct(s),
        0 <= i < s.len(),
    ensures
        entry_map(s).contains_key(s[i].0),
        entry_map(s)[s[i].0] == s[i].1,
        key_index(s, s[i].0) == i,
{
    let j = key_index(s, s[i].0);
    assert(has_key(s, s[i].0));
    assert(0 <= j < s.len() && s[j].0 == s[i].0);
}

/// Appending an entry with a new key inserts it.
pub proof fn lemma_entry_map_push<K, V>(s: Seq<(K, V)>, k: K, v: V)
    requires
        keys_distinct(s),
        !has_key(s, k),
    ensures
        keys_distinct(s.push((k, v))),
        entry_map(s.push((k, v))) == entry_map(s).insert(k, v),
{
    let t = s.push((k, v));
    assert(forall|i: int| 0 <= i < s.len() ==> t[i] == s[i]);
    assert forall|x: K| has_key(t, x) == (has_key(s, x) || x == k) by {
        if has_key(s, x) {
            let i = key_index(s, x);
            assert(t[i].0 == x);
        }
        if x == k {
            assert(t[s.len() as int].0 == x);
        }
    }
    assert forall|x: K| has_key(t, x) implies #[trigger] entry_map(t)[x] == entry_map(s).insert(k, v)[x] by {
        let i = key_index(t, x);
        lemma_entry_map_at(t, i);
        if x != k {
            assert(s[i] == t[i]);
            lemma_entry_map_at(s, i);
        }
    }
    assert(entry_map(t) =~= entry_map(s).insert(k, v));
}

/// Replacing the value of an entry inserts the new value under its key.
pub proof fn lemma_entry_map_update<K, V>(s: Seq<(K, V)>, i: int, v: V)
    requires
        keys_distinct(s),
        0 <= i < s.len(),
    ensures
        keys_distinct(s.update(i, (s[i].0, v))),
        entry_map(s.update(i, (s[i].0, v))) == entry_map(s).insert(s[i].0, v),
{
    let t = s.update(i, (s[i].0, v));
    assert(forall|j: int| 0 <= j < s.len() ==> (#[trigger] t[j]).0 == s[j].0);
    assert forall|x: K| has_key(t, x) == has_key(s, x) by {
        if has_key(s, x) {
            let j = key_index(s, x);
            assert(t[j].0 == x);
        }
        if has_key(t, x) {
            let j = key_index(t, x);
            assert(s[j].0 == x);
        }
    }
    lemma_entry_map_at(s, i);
    assert forall|x: K| has_key(t, x) implies #[trigger] entry_map(t)[x] == entry_map(s).insert(s[i].0, v)[x] by {
        let j = key_index(t, x);
        lemma_entry_map_at(t, j);
        lemma_entry_map_at(s, j);
    }
    assert(entry_map(t) =~= entry_map(s).insert(s[i].0, v));
}

/// Removing an entry removes its key.
pub proof fn lemma_entry_map_remove<K, V>(s: Seq<(K, V)>, i: int)
    requires
        keys_distinct(s),
        0 <= i < s.len(),
    ensures
        keys_distinct(s.remove(i)),
        entry_map(s.remove(i)) == entry_map(s).remove(s[i].0),
{
    let t = s.remove(i);
    assert(forall|j: int| 0 <= j < i ==> t[j] == s[j]);
    assert(forall|j: int| i <= j < t.len() ==> t[j] == s[j + 1]);
    assert forall|x: K| has_key(t, x) == (has_key(s, x) && x != s[i].0) by {
        if has_key(s, x) && x != s[i].0 {
            let j = key_index(s, x);
            if j < i {
                assert(t[j].0 == x);
            } else {
                assert(t[j - 1].0 == x);
            }
        }
        if has_key(t, x) {
            let j = key_index(t, x);
            if j < i {
                assert(s[j].0 == x);
            } else {
                assert(s[j + 1].0 == x);
            }
        }
    }
    assert forall|x: K| has_key(t, x) implies #[trigger] entry_map(t)[x] == entry_map(s)[x] by {
        let j = key_index(t, x);
        lemma_entry_map_at(t, j);
        if j < i {
            lemma_entry_map_at(s, j);
        } else {
            lemma_entry_map_at(s, j + 1);
        }
    }
    assert(entry_map(t) =~= entry_map(s).remove(s[i].0));
}

/// Filtering the entries selects from the map.
pub proof fn lemma_entry_map_filter<K, V>(s: Seq<(K, V)>, p: spec_fn(K, V) -> bool)
    requires
        keys_distinct(s),
    ensures
        keys_distinct(s.filter(on_entry(p))),
        entry_map(s.filter(on_entry(p))) == select(entry_map(s), p),
    decreases s.len(),
{
    reveal(Seq::filter);
    let f = on_entry(p);
    if s.len() == 0 {
        assert(s.filter(f) =~= s);
        assert(entry_map(s) =~= select(entry_map(s), p));
    } else {
        let r = s.drop_last();
        let e = s.last();
        assert(s == r.push(e));
        assert(!has_key(r, e.0)) by {
            if has_key(r, e.0) {
                let i = key_index(r, e.0);
                assert(s[i].0 == s[s.len() - 1].0);
            }
        }
        lemma_entry_map_filter(r, p);
        lemma_entry_map_push(r, e.0, e.1);
        assert(entry_map(s) == entry_map(r).insert(e.0, e.1));
        if f(e) {
            assert(!has_key(r.filter(f), e.0)) by {
                if has_key(r.filter(f), e.0) {
                    assert(entry_map(r.filter(f)).contains_key(e.0));
                    assert(entry_map(r).contains_key(e.0));
                }
            }
            lemma_entry_map_push(r.filter(f), e.0, e.1);
            assert(s.filter(f) == r.filter(f).push(e));
        } else {
            assert(s.filter(f) == r.filter(f));
        }
        assert(entry_map(s.filter(f)) =~= select(entry_map(s), p));
    }
}

/// The map has as many keys as there are entries.
pub proof fn lemma_entry_map_len<K, V>(s: Seq<(K, V)>)
    requires
        keys_distinct(s),
    ensures
        entry_map(s).dom().finite(),
        entry_map(s).dom().len() == s.len(),
    decreases s.len(),
{
    if s.len() == 0 {
        assert(entry_map(s).dom() =~= Set::<K>::empty());
    } else {
        let r = s.drop_last();
        let e = s.last();
        assert(s == r.push(e));
        assert(!has_key(r, e.0)) by {
            if has_key(r, e.0) {
                let i = key_index(r, e.0);
                assert(s[i].0 == s[s.len() - 1].0);
            }
        }
        lemma_entry_map_len(r);
        lemma_entry_map_push(r, e.0, e.1);
        assert(entry_map(s).dom() =~= entry_map(r).dom().insert(e.0));
        assert(!entry_map(r).dom().contains(e.0));
    }
}

/// A map held as a vector of entries, in order of insertion.
pub struct VecMap<K, V> {
    entries: Vec<(K, V)>,
}

impl<K, V> View for VecMap<K, V> {
    type V = Map<K, V>;

    open spec fn view(&self) -> Map<K, V> {
        entry_map(self.seq())
    }
}

impl<K, V> VecMap<K, V> {
    /// The entries, in order.
    pub closed spec fn seq(&self) -> Seq<(K, V)> {
        self.entries@
    }

    /// No key occurs twice.
    pub open spec fn wf(&self) -> bool {
        keys_distinct(self.seq())
    }
}

impl<K: MapKey, V> VecMap<K, V> {
    /// Creates an empty map.
    pub fn new() -> (r: Self)
        ensures
            r.wf(),
            r.seq() == Seq::<(K, V)>::empty(),
            r@ == Map::<K, V>::empty(),
    {
        let r = VecMap { entries: Vec::new() };
        assert(r@ =~= Map::<K, V>::empty());
        r
    }

    /// Creates a map with one entry.
    pub fn singleton(k: K, v: V) -> (r: Self)
        ensures
            r.wf(),
            r.seq() == seq![(k, v)],
            r@ == Map::<K, V>::empty().insert(k, v),
    {
        let mut r = VecMap::new();
        let _ = r.insert(k, v);
        assert(r.seq() =~= seq![(k, v)]);
        r
    }

    /// Returns the number of entries.
    pub fn len(&self) -> (r: usize)
        ensures
            r == self.seq().len(),
    {
        self.entries.len()
    }

    /// Returns whether there is no entry.
    pub fn is_empty(&self) -> (r: bool)
        ensures
            r == (self.seq().len() == 0),
    {
        self.entries.len() == 0
    }

    /// Returns the position of the entry with the given key.
    pub fn index_of(&self, k: &K) -> (r: Option<usize>)
        requires
            self.wf(),
        ensures
            match r {
                Some(i) => i < self.seq().len() && self.seq()[i as int].0 == *k && self@.contains_key(*k)
                    && self@[*k] == self.seq()[i as int].1,
                None => !has_key(self.seq(), *k) && !self@.contains_key(*k),
            },
    {
        let mut i: usize = 0;
        while i < self.entries.len()
            invariant
                self.wf(),
                i <= self.entries@.len(),
                forall|j: int| 0 <= j < i ==> (#[trigger] self.entries@[j]).0 != *k,
            decreases self.entries@.len() - i,
        {
            if self.entries[i].0.same(k) {
                proof {
                    lemma_entry_map_at(self.seq(), i as int);
                }
                return Some(i);
            }
            i += 1;
        }
        None
    }

    /// Returns whether there is an entry with the given key.
    pub fn contains_key(&self, k: &K) -> (r: bool)
        requires
            self.wf(),
        ensures
            r == self@.contains_key(*k),
    {
        match self.index_of(k) {
            Some(_) => true,
            None => false,
        }
    }

    /// Returns the value under the given key.
    pub fn get(&self, k: &K) -> (r: Option<&V>)
        requires
            self.wf(),
        ensures
            match r {
                Some(v) => self@.contains_key(*k) && *v == self@[*k],
                None => !self@.contains_key(*k),
            },
    {
        match self.index_of(k) {
            Some(i) => Some(&self.entries[i].1),
            None => None,
        }
    }

    /// Returns the value under the given key, to be changed in place.
    pub fn get_mut(&mut self, k: &K) -> (r: Option<&mut V>)
        requires
            old(self).wf(),
        ensures
            final(self).wf(),
            final(self).seq().len() == old(self).seq().len(),
            match r {
                Some(v) => {
                    &&& old(self)@.contains_key(*k)
                    &&& *v == old(self)@[*k]
                    &&& final(self)@ == old(self)@.insert(*k, *final(v))
                    &&& final(self).seq() == old(self).seq().update(
                        key_index(old(self).seq(), *k),
                        (*k, *final(v)),
                    )
                },
                None => !old(self)@.contains_key(*k) && final(self).seq() == old(self).seq(),
            },
    {
        let ghost before = self.seq();
        match self.index_of(k) {
            Some(i) => {
                proof {
                    lemma_entry_map_at(before, i as int);
                    assert forall|v: V| keys_distinct(#[trigger] before.update(i as int, (*k, v)))
                        && entry_map(before.update(i as int, (*k, v))) == entry_map(before).insert(*k, v) by {
                        lemma_entry_map_update(before, i as int, v);
                    }
                }
                Some(&mut self.entries[i].1)
            },
            None => None,
        }
    }

    /// Returns the key at position `i`.
    pub fn key_at(&self, i: usize) -> (r: K)
        requires
            i < self.seq().len(),
        ensures
            r == self.seq()[i as int].0,
    {
        self.entries[i].0
    }

    /// Returns the value at position `i`.
    pub fn value_at(&self, i: usize) -> (r: &V)
        requires
            i < self.seq().len(),
        ensures
            *r == self.seq()[i as int].1,
    {
        &self.entries[i].1
    }

    /// Returns the value at position `i`, to be changed in place.
    pub fn value_at_mut(&mut self, i: usize) -> (r: &mut V)
        requires
            old(self).wf(),
            i < old(self).seq().len(),
        ensures
            *r == old(self).seq()[i as int].1,
            final(self).wf(),
            final(self).seq() == old(self).seq().update(
                i as int,
                (old(self).seq()[i as int].0, *final(r)),
            ),
            final(self)@ == old(self)@.insert(old(self).seq()[i as int].0, *final(r)),
    {
        let ghost before = self.seq();
        proof {
            assert forall|v: V| keys_distinct(#[trigger] before.update(i as int, (before[i as int].0, v)))
                && entry_map(before.update(i as int, (before[i as int].0, v)))
                == entry_map(before).insert(before[i as int].0, v) by {
                lemma_entry_map_update(before, i as int, v);
            }
        }
        &mut self.entries[i].1
    }

    /// Puts `v` under the key `k` and returns what was there before.
    pub fn insert(&mut self, k: K, v: V) -> (r: Option<V>)
        requires
            old(self).wf(),
        ensures
            final(self).wf(),
            final(self)@ == old(self)@.insert(k, v),
            match r {
                Some(w) => old(self)@.contains_key(k) && w == old(self)@[k]
                    && final(self).seq() == old(self).seq().update(key_index(old(self).seq(), k), (k, v)),
                None => !old(self)@.contains_key(k) && final(self).seq() == old(self).seq().push((k, v)),
            },
    {
        let ghost before = self.seq();
        match self.index_of(&k) {
            Some(i) => {
                let mut slot = (k, v);
                proof {
                    lemma_entry_map_at(before, i as int);
                    lemma_entry_map_update(before, i as int, v);
                }
                std::mem::swap(&mut self.entries[i], &mut slot);
                assert(self.seq() =~= before.update(i as int, (k, v)));
                Some(slot.1)
            },
            None => {
                proof {
                    lemma_entry_map_push(before, k, v);
                }
                self.entries.push((k, v));
                None
            },
        }
    }

    /// Removes the entry with the given key and returns its value.
    pub fn remove(&mut self, k: &K) -> (r: Option<V>)
        requires
            old(self).wf(),
        ensures
            final(self).wf(),
            final(self)@ == old(self)@.remove(*k),
            match r {
                Some(w) => old(self)@.contains_key(*k) && w == old(self)@[*k]
                    && final(self).seq() == old(self).seq().remove(key_index(old(self).seq(), *k)),
                None => !old(self)@.contains_key(*k) && final(self).seq() == old(self).seq(),
            },
    {
        let ghost before = self.seq();
        match self.index_of(k) {
            Some(i) => {
                proof {
                    lemma_entry_map_at(before, i as int);
                    lemma_entry_map_remove(before, i as int);
                }
                let e = self.entries.remove(i);
                Some(e.1)
            },
            None => {
                assert(self@.remove(*k) =~= self@);
                None
            },
        }
    }

    /// Keeps the entries that `f` accepts.
    pub fn retain<F: Fn(&K, &V) -> bool>(&mut self, f: F, Ghost(p): Ghost<spec_fn(K, V) -> bool>)
        requires
            old(self).wf(),
            forall|k: K, v: V| #[trigger] call_requires(f, (&k, &v)),
            forall|k: K, v: V, b: bool| #[trigger] call_ensures(f, (&k, &v), b) ==> b == p(k, v),
        ensures
            final(self).wf(),
            final(self).seq() == old(self).seq().filter(on_entry(p)),
            final(self)@ == select(old(self)@, p),
            final(self).seq().len() <= old(self).seq().len(),
    {
        let ghost before = self.seq();
        let mut source: Vec<(K, V)> = Vec::new();
        std::mem::swap(&mut source, &mut self.entries);
        let mut kept: Vec<(K, V)> = Vec::new();
        let ghost q = on_entry(p);
        assert(source@.take(0).filter(q) =~= kept@) by {
            reveal(Seq::filter);
        }
        let n = source.len();
        let mut i: usize = 0;
        proof {
            assert(source@ =~= before.skip(0));
        }
        while i < n
            invariant
                i <= n,
                n == before.len(),
                source@ == before.skip(i as int),
                kept@ == before.take(i as int).filter(q),
                q == on_entry(p),
                forall|k: K, v: V| #[trigger] call_requires(f, (&k, &v)),
                forall|k: K, v: V, b: bool| #[trigger] call_ensures(f, (&k, &v), b) ==> b == p(k, v),
            decreases n - i,
        {
            let e = source.remove(0);
            proof {
                assert(e == before[i as int]);
                assert(before.take(i + 1) =~= before.take(i as int).push(e));
                before.take(i as int).lemma_filter_push(e, q);
                assert(source@ =~= before.skip(i + 1));
            }
            let keep = f(&e.0, &e.1);
            if keep {
                kept.push(e);
            }
            i += 1;
        }
        proof {
            assert(before.take(n as int) =~= before);
            lemma_entry_map_filter(before, p);
            before.lemma_filter_len(q);
        }
        self.entries = kept;
    }

    /// Turns the map into its entries, in order.
    pub fn into_entries(self) -> (r: Vec<(K, V)>)
        ensures
            r@ == self.seq(),
    {
        self.entries
    }
}

/// A set held as a vector of elements, in order of insertion.
pub struct VecSet<K> {
    items: Vec<K>,
}

impl<K> View for VecSet<K> {
    type V = Set<K>;

    open spec fn view(&self) -> Set<K> {
        self.seq().to_set()
    }
}

impl<K> VecSet<K> {
    /// The elements, in order.
    pub closed spec fn seq(&self) -> Seq<K> {
        self.items@
    }

    /// No element occurs twice.
    pub open spec fn wf(&self) -> bool {
        self.seq().no_duplicates()
    }
}

impl<K: MapKey> VecSet<K> {
    /// Creates an empty set.
    pub fn new() -> (r: Self)
        ensures
            r.wf(),
            r.seq() == Seq::<K>::empty(),
            r@ == Set::<K>::empty(),
    {
        let r = VecSet { items: Vec::new() };
        assert(r@ =~= Set::<K>::empty());
        r
    }

    /// Creates the set of the elements of `items`.
    pub fn from_vec(items: &Vec<K>) -> (r: Self)
        ensures
            r.wf(),
            r@ == items@.to_set(),
            r.seq().len() <= items@.len(),
            (r.seq().len() == items@.len()) == items@.no_duplicates(),
            items@.no_duplicates() ==> r.seq() == items@,
    {
        let mut r = VecSet::new();
        let mut i: usize = 0;
        while i < items.len()
            invariant
                i <= items@.len(),
                r.wf(),
                r@ =~= items@.take(i as int).to_set(),
                r.seq().len() <= i,
                (r.seq().len() == i) == items@.take(i as int).no_duplicates(),
                items@.take(i as int).no_duplicates() ==> r.seq() == items@.take(i as int),
            decreases items@.len() - i,
        {
            let ghost prefix = items@.take(i as int);
            let ghost next = items@.take(i + 1);
            proof {
                assert(next =~= prefix.push(items@[i as int]));
                prefix.lemma_push_to_set_commute(items@[i as int]);
            }
            let added = r.insert(items[i]);
            proof {
                if !added {
                    assert(prefix.contains(items@[i as int]));
                    let j = prefix.index_of(items@[i as int]);
                    assert(next[j] == next[i as int]);
                    assert(!next.no_duplicates());
                } else {
                    assert(!prefix.contains(items@[i as int]));
                    if prefix.no_duplicates() {
                        assert forall|a: int, b: int| 0 <= a < next.len() && 0 <= b < next.len() && a != b implies next[a] != next[b] by {
                            if a == i {
                                assert(next[b] == prefix[b]);
                            } else if b == i {
                                assert(next[a] == prefix[a]);
                            } else {
                                assert(next[a] == prefix[a]);
                                assert(next[b] == prefix[b]);
                            }
                        }
                    } else {
                        let (a, b) = choose|a: int, b: int| 0 <= a < prefix.len() && 0 <= b < prefix.len() && a != b && prefix[a] == prefix[b];
                        assert(next[a] == next[b]);
                    }
                }
            }
            i += 1;
        }
        assert(items@.take(items@.len() as int) =~= items@);
        r
    }

    /// Returns the number of elements.
    pub fn len(&self) -> (r: usize)
        ensures
            r == self.seq().len(),
    {
        self.items.len()
    }

    /// Returns whether there is no element.
    pub fn is_empty(&self) -> (r: bool)
        ensures
            r == (self.seq().len() == 0),
            r == (self@ == Set::<K>::empty()),
    {
        proof {
            if self.seq().len() > 0 {
                assert(self@.contains(self.seq()[0]));
            } else {
                assert(self@ =~= Set::<K>::empty());
            }
        }
        self.items.len() == 0
    }

    /// Returns the position of an element.
    pub fn position(&self, k: &K) -> (r: Option<usize>)
        ensures
            match r {
                Some(i) => i < self.seq().len() && self.seq()[i as int] == *k && self@.contains(*k),
                None => !self@.contains(*k),
            },
    {
        let mut i: usize = 0;
        while i < self.items.len()
            invariant
                i <= self.items@.len(),
                forall|j: int| 0 <= j < i ==> self.items@[j] != *k,
            decreases self.items@.len() - i,
        {
            if self.items[i].same(k) {
                assert(self.seq().contains(*k));
                return Some(i);
            }
            i += 1;
        }
        None
    }

    /// Returns whether `k` is an element.
    pub fn contains(&self, k: &K) -> (r: bool)
        ensures
            r == self@.contains(*k),
    {
        match self.position(k) {
            Some(_) => true,
            None => false,
        }
    }

    /// Returns the element at position `i`.
    pub fn item_at(&self, i: usize) -> (r: K)
        requires
            i < self.seq().len(),
        ensures
            r == self.seq()[i as int],
            self@.contains(r),
    {
        assert(self.seq().contains(self.seq()[i as int]));
        self.items[i]
    }

    /// Adds an element; returns whether it was new.
    pub fn insert(&mut self, k: K) -> (r: bool)
        requires
            old(self).wf(),
        ensures
            final(self).wf(),
            final(self)@ == old(self)@.insert(k),
            r == !old(self)@.contains(k),
            final(self).seq() == if r {
                old(self).seq().push(k)
            } else {
                old(self).seq()
            },
    {
        if self.contains(&k) {
            assert(self@ =~= self@.insert(k));
            false
        } else {
            let ghost before = self.seq();
            self.items.push(k);
            proof {
                before.lemma_push_to_set_commute(k);
                assert forall|a: int, b: int| 0 <= a < self.seq().len() && 0 <= b < self.seq().len() && a != b implies self.seq()[a] != self.seq()[b] by {
                    if a < before.len() {
                        assert(before.contains(before[a]));
                    }
                    if b < before.len() {
                        assert(before.contains(before[b]));
                    }
                }
            }
            true
        }
    }

    /// Removes an element; returns whether it was there.
    pub fn remove(&mut self, k: &K) -> (r: bool)
        requires
            old(self).wf(),
        ensures
            final(self).wf(),
            final(self)@ == old(self)@.remove(*k),
            r == old(self)@.contains(*k),
            final(self).seq().len() == old(self).seq().len() - (if r {
                1int
            } else {
                0int
            }),
    {
        let ghost before = self.seq();
        match self.position(k) {
            Some(i) => {
                let _ = self.items.remove(i);
                proof {
                    let after = self.seq();
                    assert(after == before.remove(i as int));
                    assert(forall|j: int| 0 <= j < i ==> after[j] == before[j]);
                    assert(forall|j: int| i <= j < after.len() ==> after[j] == before[j + 1]);
                    assert forall|x: K| after.contains(x) == (before.contains(x) && x != *k) by {
                        if before.contains(x) && x != *k {
                            let j = before.index_of(x);
                            if j < i {
                                assert(after[j] == x);
                            } else {
                                assert(after[j - 1] == x);
                            }
                        }
                        if after.contains(x) {
                            let j = after.index_of(x);
                            if j < i {
                                assert(before[j] == x);
                            } else {
                                assert(before[j + 1] == x);
                            }
                        }
                    }
                    assert(self@ =~= before.to_set().remove(*k));
                }
                true
            },
            None => {
                assert(self@ =~= self@.remove(*k));
                false
            },
        }
    }
}

} // verus!
