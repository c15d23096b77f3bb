//! Maps that keep their entries in the order of their keys.

use crate::collections::MapKey;
use vstd::prelude::*;

verus! {

/// A key with a strict total order.
pub trait OrdKey: MapKey {
    /// `self` stands before `other`.
    spec fn before(self, other: Self) -> bool;

    /// No key stands before itself, and the order is transitive and total.
    proof fn lemma_order(a: Self, b: Self, c: Self)
        ensures
            !a.before(a),
            a.before(b) && b.before(c) ==> a.before(c),
            a.before(b) || b.before(a) || a == b,
    ;

    /// Returns whether `self` stands before `other`.
    fn precedes(&self, other: &Self) -> (r: bool)
        ensures
            r == self.before(*other),
    ;
}

impl OrdKey for u64 {
    open spec fn before(self, other: u64) -> bool {
        self < other
    }

    proof fn lemma_order(a: u64, b: u64, c: u64) {
    }

    fn precedes(&self, other: &u64) -> (r: bool) {
        *self < *other
    }
}

/// One sequence of bytes stands before another in the order of a dictionary.
pub open spec fn lex_less(a: Seq<u8>, b: Seq<u8>) -> bool
    decreases b.len(),
{
    if b.len() == 0 {
        false
    } else if a.len() == 0 {
        true
    } else if a[0] != b[0] {
        a[0] < b[0]
    } else {
        lex_less(a.skip(1), b.skip(1))
    }
}

/// The dictionary order is a strict total order.
pub proof fn lemma_lex_order(a: Seq<u8>, b: Seq<u8>, c: Seq<u8>)
    ensures
        !lex_less(a, a),
        lex_less(a, b) && lex_less(b, c) ==> lex_less(a, c),
        lex_less(a, b) || lex_less(b, a) || a == b,
    decreases a.len() + b.len() + c.len(),
{
    if a.len() > 0 && b.len() > 0 && c.len() > 0 {
        lemma_lex_order(a.skip(1), b.skip(1), c.skip(1));
    } else if a.len() > 0 && b.len() > 0 {
        lemma_lex_order(a.skip(1), b.skip(1), c);
    } else if a.len() > 0 {
        lemma_lex_order(a.skip(1), b, c);
    }
    if a.len() > 0 && b.len() > 0 && a[0] == b[0] && a.skip(1) == b.skip(1) {
        assert(a =~= seq![a[0]] + a.skip(1));
        assert(b =~= seq![b[0]] + b.skip(1));
    }
    if a.len() == 0 && b.len() == 0 {
        assert(a =~= b);
    }
}

/// Returns whether the bytes of `a` stand before those of `b` in the order of a dictionary.
pub fn bytes_before<const N: usize>(a: &[u8; N], b: &[u8; N]) -> (r: bool)
    ensures
        r == lex_less(a@, b@),
{
    let mut i: usize = 0;
    assert(a@.skip(0) =~= a@);
    assert(b@.skip(0) =~= b@);
    while i < N
        invariant
            i <= N,
            lex_less(a@, b@) == lex_less(a@.skip(i as int), b@.skip(i as int)),
        decreases N - i,
    {
        assert(a@.skip(i as int)[0] == a@[i as int]);
        assert(b@.skip(i as int)[0] == b@[i as int]);
        if a[i] != b[i] {
            return a[i] < b[i];
        }
        assert(a@.skip(i as int).skip(1) =~= a@.skip(i + 1));
        assert(b@.skip(i as int).skip(1) =~= b@.skip(i + 1));
        i += 1;
    }
    false
}

/// The keys of the entries increase.
pub open spec fn keys_increase<K: OrdKey, V>(s: Seq<(K, V)>) -> bool {
    forall|i: int, j: int| 0 <= i < j < s.len() ==> (#[trigger] s[i]).0.before((#[trigger] s[j]).0)
}

/// Some entry has the key `k`.
pub open spec fn holds_key<K, V>(s: Seq<(K, V)>, k: K) -> bool {
    exists|i: int| 0 <= i < s.len() && (#[trigger] s[i]).0 == k
}

/// The number of entries whose keys stand before `k`.
pub open spec fn rank<K: OrdKey, V>(s: Seq<(K, V)>, k: K) -> int
    decreases s.len(),
{
    if s.len() == 0 || !s[0].0.before(k) {
        0
    } else {
        1 + rank(s.skip(1), k)
    }
}

/// The value under the key `k`.
pub open spec fn value_of<K: OrdKey, V>(s: Seq<(K, V)>, k: K) -> Option<V> {
    let i = rank(s, k);
    if i < s.len() && s[i].0 == k {
        Some(s[i].1)
    } else {
        None
    }
}

/// The entries with `v` put under the key `k`.
pub open spec fn with_entry<K: OrdKey, V>(s: Seq<(K, V)>, k: K, v: V) -> Seq<(K, V)> {
    let i = rank(s, k);
    if i < s.len() && s[i].0 == k {
        s.update(i, (k, v))
    } else {
        s.insert(i, (k, v))
    }
}

/// The rank is a position among the entries or right after them.
pub proof fn lemma_rank_bounds<K: OrdKey, V>(s: Seq<(K, V)>, k: K)
    ensures
        0 <= rank(s, k) <= s.len(),
    decreases s.len(),
{
    if s.len() > 0 {
        lemma_rank_bounds(s.skip(1), k);
    }
}

/// Putting back what was there changes nothing.
pub proof fn lemma_same_entry<K: OrdKey, V>(s: Seq<(K, V)>, k: K, v: V)
    requires
        value_of(s, k) == Some(v),
    ensures
        with_entry(s, k, v) == s,
{
    lemma_rank_bounds(s, k);
    assert(with_entry(s, k, v) =~= s);
}

/// The rank splits the entries into those before `k` and the others.
pub proof fn lemma_rank<K: OrdKey, V>(s: Seq<(K, V)>, k: K)
    requires
        keys_increase(s),
    ensures
        0 <= rank(s, k) <= s.len(),
        forall|i: int| 0 <= i < rank(s, k) ==> (#[trigger] s[i]).0.before(k),
        forall|i: int| rank(s, k) <= i < s.len() ==> !(#[trigger] s[i]).0.before(k),
        holds_key(s, k) == (value_of(s, k) is Some),
    decreases s.len(),
{
    if s.len() > 0 {
        if s[0].0.before(k) {
            let t = s.skip(1);
            assert(forall|i: int| 0 <= i < t.len() ==> t[i] == s[i + 1]);
            lemma_rank(t, k);
            assert forall|i: int| 0 <= i < rank(s, k) implies (#[trigger] s[i]).0.before(k) by {
                if i > 0 {
                    assert(t[i - 1].0.before(k));
                }
            }
            assert forall|i: int| rank(s, k) <= i < s.len() implies !(#[trigger] s[i]).0.before(k) by {
                assert(!t[i - 1].0.before(k));
            }
        } else {
            assert forall|i: int| 0 <= i < s.len() implies !(#[trigger] s[i]).0.before(k) by {
                if i > 0 && s[i].0.before(k) {
                    K::lemma_order(s[0].0, s[i].0, k);
                }
            }
        }
    }
    if holds_key(s, k) {
        let i = choose|i: int| 0 <= i < s.len() && (#[trigger] s[i]).0 == k;
        K::lemma_order(k, k, k);
        let r = rank(s, k);
        assert(r <= i);
        if r < i {
            assert(s[r].0.before(s[i].0));
        }
    }
}

/// Putting a value under a key keeps the order, sets that key and leaves the others alone.
pub proof fn lemma_with_entry<K: OrdKey, V>(s: Seq<(K, V)>, k: K, v: V)
    requires
        keys_increase(s),
    ensures
        keys_increase(with_entry(s, k, v)),
        value_of(with_entry(s, k, v), k) == Some(v),
        forall|x: K| x != k ==> #[trigger] value_of(with_entry(s, k, v), x) == value_of(s, x),
{
    lemma_rank(s, k);
    let i = rank(s, k);
    let t = with_entry(s, k, v);
    let found = i < s.len() && s[i].0 == k;
    assert forall|a: int, b: int| 0 <= a < b < t.len() implies (#[trigger] t[a]).0.before((#[trigger] t[b]).0) by {
        if !found {
            if a == i {
                K::lemma_order(k, s[b - 1].0, k);
            } else if b == i {
            } else {
                let a0 = if a < i { a } else { a - 1 };
                let b0 = if b < i { b } else { b - 1 };
                assert(s[a0].0.before(s[b0].0));
            }
        } else {
            assert(s[a].0.before(s[b].0));
        }
    }
    lemma_rank(t, k);
    assert(t[i] == (k, v));
    lemma_value_at(t, i);
    assert forall|x: K| x != k implies #[trigger] value_of(t, x) == value_of(s, x) by {
        lemma_rank(s, x);
        lemma_rank(t, x);
        if value_of(s, x) is Some {
            let j = rank(s, x);
            let j1 = if found || j < i { j } else { j + 1 };
            assert(t[j1] == s[j]);
            lemma_value_at(t, j1);
        } else if value_of(t, x) is Some {
            let j = rank(t, x);
            assert(j != i);
            let j0 = if found || j < i { j } else { j - 1 };
            assert(s[j0] == t[j]);
            assert(holds_key(s, x));
        }
    }
}

/// The value under the key of the entry at position `i` is that entry's value.
pub proof fn lemma_value_at<K: OrdKey, V>(s: Seq<(K, V)>, i: int)
    requires
        keys_increase(s),
        0 <= i < s.len(),
    ensures
        value_of(s, s[i].0) == Some(s[i].1),
        rank(s, s[i].0) == i,
{
    let k = s[i].0;
    lemma_rank(s, k);
    K::lemma_order(k, k, k);
    let r = rank(s, k);
    if r < i {
        assert(s[r].0.before(s[i].0));
    }
}

/// A map that keeps its entries in the order of their keys.
pub struct OrderedMap<K, V> {
    entries: Vec<(K, V)>,
}

impl<K, V> View for OrderedMap<K, V> {
    type V = Seq<(K, V)>;

    closed spec fn view(&self) -> Seq<(K, V)> {
        self.entries@
    }
}

impl<K: OrdKey, V> OrderedMap<K, V> {
    /// The keys increase.
    pub open spec fn wf(&self) -> bool {
        keys_increase(self@)
    }

    /// Creates an empty map.
    pub fn new() -> (r: Self)
        ensures
            r.wf(),
            r@ == Seq::<(K, V)>::empty(),
    {
        OrderedMap { entries: Vec::new() }
    }

    /// Returns the number of entries.
    pub fn len(&self) -> (r: usize)
        ensures
            r == self@.len(),
    {
        self.entries.len()
    }

    /// Returns whether there is no entry.
    pub fn is_empty(&self) -> (r: bool)
        ensures
            r == (self@.len() == 0),
    {
        self.entries.len() == 0
    }

    /// Returns the number of entries whose keys stand before `k`.
    pub fn rank_of(&self, k: &K) -> (r: usize)
        requires
            self.wf(),
        ensures
            r == rank(self@, *k),
            r <= self@.len(),
    {
        proof {
            lemma_rank(self@, *k);
        }
        let mut i: usize = 0;
        while i < self.entries.len() && self.entries[i].0.precedes(k)
            invariant
                i <= rank(self@, *k) <= self@.len(),
                forall|j: int| 0 <= j < rank(self@, *k) ==> (#[trigger] self@[j]).0.before(*k),
                forall|j: int| rank(self@, *k) <= j < self@.len() ==> !(#[trigger] self@[j]).0.before(*k),
            decreases self.entries@.len() - i,
        {
            assert(self@[i as int].0.before(*k));
            i += 1;
        }
        i
    }

    /// Returns the value under the given key.
    pub fn get(&self, k: &K) -> (r: Option<&V>)
        requires
            self.wf(),
        ensures
            match r {
                Some(v) => value_of(self@, *k) == Some(*v),
                None => value_of(self@, *k) is None,
            },
    {
        let i = self.rank_of(k);
        if i < self.entries.len() && self.entries[i].0.same(k) {
            Some(&self.entries[i].1)
        } else {
            None
        }
    }

    /// Returns whether there is an entry with the given key.
    pub fn contains_key(&self, k: &K) -> (r: bool)
        requires
            self.wf(),
        ensures
            r == (value_of(self@, *k) is Some),
    {
        match self.get(k) {
            Some(_) => true,
            None => false,
        }
    }

    /// Returns the value under the given key, to be changed in place.
    pub fn get_mut(&mut self, k: &K) -> (r: Option<&mut V>)
        requires
            old(self).wf(),
        ensures
            final(self).wf(),
            match r {
                Some(v) => value_of(old(self)@, *k) == Some(*v) && final(self)@ == with_entry(old(self)@, *k, *final(v)),
                None => value_of(old(self)@, *k) is None && final(self)@ == old(self)@,
            },
    {
        let ghost before = self@;
        let i = self.rank_of(k);
        if i < self.entries.len() && self.entries[i].0.same(k) {
            proof {
                assert forall|v: V| keys_increase(#[trigger] with_entry(before, *k, v)) by {
                    lemma_with_entry(before, *k, v);
                }
            }
            Some(&mut self.entries[i].1)
        } else {
            None
        }
    }

    /// Returns the key at position `i`.
    pub fn key_at(&self, i: usize) -> (r: K)
        requires
            i < self@.len(),
        ensures
            r == self@[i as int].0,
    {
        self.entries[i].0
    }

    /// Returns the value at position `i`.
    pub fn value_at(&self, i: usize) -> (r: &V)
        requires
            i < self@.len(),
        ensures
            *r == self@[i as int].1,
    {
        &self.entries[i].1
    }

    /// Puts `v` under the key `k` and returns what was there before.
    pub fn insert(&mut self, k: K, v: V) -> (r: Option<V>)
        requires
            old(self).wf(),
        ensures
            final(self).wf(),
            final(self)@ == with_entry(old(self)@, k, v),
            r == value_of(old(self)@, k),
    {
        let ghost before = self@;
        proof {
            lemma_with_entry(before, k, v);
        }
        let i = self.rank_of(&k);
        if i < self.entries.len() && self.entries[i].0.same(&k) {
            let mut slot = (k, v);
            std::mem::swap(&mut self.entries[i], &mut slot);
            assert(self@ =~= before.update(i as int, (k, v)));
            Some(slot.1)
        } else {
            self.entries.insert(i, (k, v));
            None
        }
    }

    /// Adds an entry whose key stands behind all the others.
    pub fn push(&mut self, k: K, v: V)
        requires
            old(self).wf(),
            old(self)@.len() > 0 ==> old(self)@.last().0.before(k),
        ensures
            final(self).wf(),
            final(self)@ == old(self)@.push((k, v)),
    {
        let ghost before = self@;
        proof {
            assert forall|a: int, b: int| 0 <= a < b < before.push((k, v)).len() implies (#[trigger] before.push(
                (k, v),
            )[a]).0.before((#[trigger] before.push((k, v))[b]).0) by {
                if b == before.len() && a < before.len() - 1 {
                    assert(before[a].0.before(before.last().0));
                    K::lemma_order(before[a].0, before.last().0, k);
                }
            }
        }
        self.entries.push((k, v));
    }

    /// Removes the entry with the given key and returns its value.
    pub fn remove(&mut self, k: &K) -> (r: Option<V>)
        requires
            old(self).wf(),
        ensures
            final(self).wf(),
            r == value_of(old(self)@, *k),
            final(self)@ == match r {
                Some(_) => old(self)@.remove(rank(old(self)@, *k)),
                None => old(self)@,
            },
    {
        let ghost before = self@;
        let i = self.rank_of(k);
        if i < self.entries.len() && self.entries[i].0.same(k) {
            let e = self.entries.remove(i);
            proof {
                let after = self@;
                assert forall|a: int, b: int| 0 <= a < b < after.len() implies (#[trigger] after[a]).0.before((#[trigger] after[b]).0) by {
                    let a0 = if a < i { a } else { a + 1 };
                    let b0 = if b < i { b } else { b + 1 };
                    assert(before[a0].0.before(before[b0].0));
                }
            }
            Some(e.1)
        } else {
            None
        }
    }

    /// Turns the map into its entries, in order.
    pub fn into_entries(self) -> (r: Vec<(K, V)>)
        ensures
            r@ == self@,
    {
        self.entries
    }
}

/// Of two lists of bytes the one stands first that has the smaller byte at the first place where they
/// differ, and the shorter one if it is how the other begins.
pub proof fn law_first_difference_decides(a: Seq<u8>, b: Seq<u8>, k: int)
    requires
        0 <= k <= a.len(),
        k <= b.len(),
        forall|i: int| 0 <= i < k ==> #[trigger] a[i] == b[i],
    ensures
        k < a.len() && k < b.len() && a[k] != b[k] ==> lex_less(a, b) == (a[k] < b[k]),
        k == a.len() ==> lex_less(a, b) == (a.len() < b.len()),
    decreases k,
{
    if k > 0 {
        let x = a.skip(1);
        let y = b.skip(1);
        assert forall|i: int| 0 <= i < k - 1 implies #[trigger] x[i] == y[i] by {
            assert(a[i + 1] == b[i + 1]);
        }
        law_first_difference_decides(x, y, k - 1);
        assert(a[0] == b[0]);
    }
}

} // verus!
