//! Counters by key.

use crate::collections::{MapKey, VecMap};
use vstd::prelude::*;

verus! {

/// A counter for each key; a key whose count is zero is not kept.
pub struct KeyedCounter<K> {
    counts: VecMap<K, usize>,
}

/// The count of a key.
pub open spec fn count_of<K>(m: Map<K, usize>, key: K) -> int {
    if m.contains_key(key) {
        m[key] as int
    } else {
        0
    }
}

/// The counts with that of one key replaced.
pub open spec fn with_count<K>(m: Map<K, usize>, key: K, count: int) -> Map<K, usize> {
    if count == 0 {
        m.remove(key)
    } else {
        m.insert(key, count as usize)
    }
}

impl<K> View for KeyedCounter<K> {
    type V = Map<K, usize>;

    closed spec fn view(&self) -> Map<K, usize> {
        self.counts@
    }
}

impl<K: MapKey> KeyedCounter<K> {
    /// No count that is kept is zero.
    pub closed spec fn wf(&self) -> bool {
        self.counts.wf() && forall|k: K| #[trigger] self.counts@.contains_key(k) ==> self.counts@[k] > 0
    }

    /// The keys of a counter have counts.
    pub proof fn lemma_invariant(&self, key: K)
        requires
            self.wf(),
        ensures
            self@.contains_key(key) == (count_of(self@, key) > 0),
    {
    }

    /// Creates counters that are all zero.
    pub fn new() -> (r: KeyedCounter<K>)
        ensures
            r.wf(),
            r@ == Map::<K, usize>::empty(),
    {
        KeyedCounter { counts: VecMap::new() }
    }

    /// Returns the count for a specific key.
    pub fn count(&self, key: &K) -> (r: usize)
        requires
            self.wf(),
        ensures
            r == count_of(self@, *key),
    {
        match self.counts.get(key) {
            Some(count) => *count,
            None => 0,
        }
    }

    /// Increases the count for a specific key. Returns the new value.
    pub fn inc(&mut self, key: &K) -> (r: usize)
        requires
            old(self).wf(),
            count_of(old(self)@, *key) < usize::MAX,
        ensures
            final(self).wf(),
            r == count_of(old(self)@, *key) + 1,
            final(self)@ == with_count(old(self)@, *key, r as int),
    {
        let count = match self.counts.get(key) {
            Some(count) => *count + 1,
            None => 1,
        };
        let _ = self.counts.insert(*key, count);
        count
    }

    /// Decreases the count for a specific key. Returns the new value.
    pub fn dec(&mut self, key: &K) -> (r: usize)
        requires
            old(self).wf(),
            count_of(old(self)@, *key) > 0,
        ensures
            final(self).wf(),
            r == count_of(old(self)@, *key) - 1,
            final(self)@ == with_count(old(self)@, *key, r as int),
    {
        let count = match self.counts.get(key) {
            Some(count) => *count - 1,
            None => 0,
        };
        if count == 0 {
            let _ = self.counts.remove(key);
        } else {
            let _ = self.counts.insert(*key, count);
        }
        count
    }
}

/// Increasing and decreasing undo each other.
pub proof fn law_inc_dec<K>(m: Map<K, usize>, key: K)
    requires
        m.contains_key(key) ==> m[key] > 0,
        count_of(m, key) < usize::MAX,
    ensures
        ({
            let up = with_count(m, key, count_of(m, key) + 1);
            with_count(up, key, count_of(up, key) - 1) == m
        }),
{
    let up = with_count(m, key, count_of(m, key) + 1);
    assert(with_count(up, key, count_of(up, key) - 1) =~= m);
}

} // verus!
