//! The graph of units: who cites whom.

use crate::collections::{MapKey, VecMap};
use crate::consensus::highway::context::{Context, ContextTypes};
use crate::consensus::highway::panorama::Observation;
use crate::consensus::highway::unit::Unit;
use std::rc::Rc;
use vstd::arithmetic::power2::pow2;
use vstd::prelude::*;

verus! {

/// The units in the order in which they were added.
pub type UnitOrder<C> = Seq<(<C as ContextTypes>::Hash, Rc<Unit<C>>)>;

/// The units by hash.
pub open spec fn units_of<C: ContextTypes>(s: UnitOrder<C>) -> crate::consensus::highway::unit::Units<C> {
    crate::collections::entry_map(s)
}

/// The unit at position `p` knows all `n` validators, and cites only earlier units, each as one of
/// its creator.
pub open spec fn unit_ordered<C: ContextTypes>(s: UnitOrder<C>, p: int, n: int) -> bool {
    let u = s[p].1;
    &&& u.panorama.observations@.len() == n
    &&& u.creator.0 < n
    &&& u.round_exp < 64
    &&& forall|i: int| 0 <= i < n ==> (#[trigger] u.panorama.observations@[i] matches Observation::Correct(h)
        ==> cited_right(s, p, i, h))
}

/// `h` is a unit by the validator at index `i`, added before position `p`.
pub open spec fn cited_right<C: ContextTypes>(s: UnitOrder<C>, p: int, i: int, h: C::Hash) -> bool {
    &&& units_of(s).contains_key(h)
    &&& crate::collections::key_index(s, h) < p
    &&& units_of(s)[h].creator.0 == i
}

/// The units form a graph without cycles, in which every swimlane is without gaps and can be
/// searched by skip lists.
pub open spec fn graph_wf<C: ContextTypes>(s: UnitOrder<C>, n: int) -> bool {
    &&& crate::collections::keys_distinct(s)
    &&& forall|p: int| 0 <= p < s.len() ==> #[trigger] unit_ordered(s, p, n)
    &&& crate::consensus::highway::unit::linked(units_of(s))
    &&& crate::consensus::highway::unit::skip_lists_right(units_of(s))
}

/// The unit `h` sees `t` in the swimlane of a creator that it does not know to be faulty.
pub open spec fn sees_correct<C: ContextTypes>(s: UnitOrder<C>, h: C::Hash, t: C::Hash) -> bool {
    let g = units_of(s);
    h == t || (g.contains_key(h) && g.contains_key(t) && (crate::consensus::highway::unit::sees_of(
        &*g[h],
        g[t].creator,
    ) matches Observation::Correct(l) && crate::consensus::highway::unit::ancestor(g, l, g[t].seq_number as int)
        == Some(t)))
}

/// The unit `h` sees `t`, directly or through the units it cites.
pub open spec fn sees<C: ContextTypes>(s: UnitOrder<C>, h: C::Hash, t: C::Hash) -> bool
    decreases
            (if crate::collections::has_key(s, h) {
                crate::collections::key_index(s, h) + 1
            } else {
                0
            }),
{
    let g = units_of(s);
    h == t || (g.contains_key(h) && g.contains_key(t) && match crate::consensus::highway::unit::sees_of(
        &*g[h],
        g[t].creator,
    ) {
        Observation::Unseen => false,
        Observation::Correct(l) => crate::consensus::highway::unit::ancestor(g, l, g[t].seq_number as int) == Some(t),
        Observation::Faulty => exists|i: int|
            {
                &&& 0 <= i < g[h].panorama.observations@.len()
                &&& #[trigger] g[h].panorama.observations@[i] matches Observation::Correct(c) && crate::collections::has_key(s, c)
                    && 0 <= crate::collections::key_index(s, c) < crate::collections::key_index(s, h) && sees(s, c, t)
            },
    })
}

/// The position of a unit and what holds there.
pub proof fn lemma_position<C: ContextTypes>(s: UnitOrder<C>, n: int, h: C::Hash)
    requires
        graph_wf(s, n),
        units_of(s).contains_key(h),
    ensures
        0 <= crate::collections::key_index(s, h) < s.len(),
        s[crate::collections::key_index(s, h)] == (h, units_of(s)[h]),
        unit_ordered(s, crate::collections::key_index(s, h), n),
{
    let p = crate::collections::key_index(s, h);
    assert(crate::collections::has_key(s, h));
    assert(0 <= p < s.len() && s[p].0 == h);
    assert(unit_ordered(s, p, n));
}

/// Among the units of one creator, seeing correctly is standing further on in the same swimlane.
pub proof fn lemma_sees_correct_own<C: ContextTypes>(s: UnitOrder<C>, n: int, h: C::Hash, t: C::Hash)
    requires
        graph_wf(s, n),
        units_of(s).contains_key(h),
        units_of(s).contains_key(t),
        units_of(s)[h].creator == units_of(s)[t].creator,
    ensures
        sees_correct(s, h, t) == (crate::consensus::highway::unit::ancestor(units_of(s), h, units_of(s)[t].seq_number as int) == Some(t)),
{
    let g = units_of(s);
    assert(crate::consensus::highway::unit::unit_linked(g, *g[h]));
    if g[h].seq_number < g[t].seq_number {
        if sees_correct(s, h, t) {
            let l = crate::consensus::highway::unit::sees_of(&*g[h], g[t].creator)->Correct_0;
            crate::consensus::highway::unit::lemma_ancestor_is(g, l, g[t].seq_number as int);
        }
    } else if g[h].seq_number == g[t].seq_number {
        if h != t && sees_correct(s, h, t) {
            let l = crate::consensus::highway::unit::sees_of(&*g[h], g[t].creator)->Correct_0;
            crate::consensus::highway::unit::lemma_ancestor_is(g, l, g[t].seq_number as int);
        }
    }
}

/// Among the units of one creator, seeing correctly is transitive.
pub proof fn lemma_sees_correct_transitive<C: ContextTypes>(s: UnitOrder<C>, n: int, a: C::Hash, b: C::Hash, c: C::Hash)
    requires
        graph_wf(s, n),
        units_of(s).contains_key(a),
        units_of(s).contains_key(b),
        units_of(s).contains_key(c),
        units_of(s)[a].creator == units_of(s)[b].creator,
        units_of(s)[b].creator == units_of(s)[c].creator,
        sees_correct(s, a, b),
        sees_correct(s, b, c),
    ensures
        sees_correct(s, a, c),
{
    let g = units_of(s);
    lemma_sees_correct_own(s, n, a, b);
    lemma_sees_correct_own(s, n, b, c);
    lemma_sees_correct_own(s, n, a, c);
    crate::consensus::highway::unit::lemma_ancestor_is(g, b, g[c].seq_number as int);
    crate::consensus::highway::unit::lemma_ancestor_of_ancestor(g, a, g[b].seq_number as int, g[c].seq_number as int);
}

/// The unit can be added: it knows all `n` validators, cites only units that are there, each as one
/// of its creator, and stands behind its creator's previous unit with the right skip list.
pub open spec fn unit_fits<C: ContextTypes>(s: UnitOrder<C>, n: int, u: Unit<C>) -> bool {
    let g = units_of(s);
    &&& u.panorama.observations@.len() == n
    &&& u.creator.0 < n
    &&& u.round_exp < 64
    &&& forall|i: int| 0 <= i < n ==> (#[trigger] u.panorama.observations@[i] matches Observation::Correct(h) ==> g.contains_key(h)
        && g[h].creator.0 == i)
    &&& crate::consensus::highway::unit::unit_linked(g, u)
    &&& crate::consensus::highway::unit::skip_list_right(g, u)
}

/// A unit that fits leaves the graph well-formed.
pub proof fn lemma_graph_push<C: ContextTypes>(s: UnitOrder<C>, n: int, hash: C::Hash, u: Rc<Unit<C>>)
    requires
        graph_wf(s, n),
        !units_of(s).contains_key(hash),
        unit_fits(s, n, *u),
    ensures
        graph_wf(s.push((hash, u)), n),
        units_of(s.push((hash, u))) == units_of(s).insert(hash, u),
{
    let t = s.push((hash, u));
    let g = units_of(s);
    let g1 = units_of(t);
    crate::collections::lemma_entry_map_push(s, hash, u);
    assert(g1 == g.insert(hash, u));
    assert forall|h: C::Hash| g.contains_key(h) implies crate::collections::key_index(t, h) == crate::collections::key_index(s, h) by {
        lemma_position(s, n, h);
        let p = crate::collections::key_index(s, h);
        assert(t[p] == s[p]);
        crate::collections::lemma_entry_map_at(t, p);
    }
    assert forall|p: int| 0 <= p < t.len() implies #[trigger] unit_ordered(t, p, n) by {
        if p < s.len() {
            assert(t[p] == s[p]);
            assert(unit_ordered(s, p, n));
            let obs = t[p].1.panorama.observations@;
            assert forall|i: int| 0 <= i < n implies (#[trigger] obs[i] matches Observation::Correct(h) ==> cited_right(t, p, i, h)) by {
                if let Observation::Correct(h) = obs[i] {
                    assert(s[p].1.panorama.observations@[i] == Observation::Correct(h));
                    assert(cited_right(s, p, i, h));
                }
            }
        } else {
            let obs = u.panorama.observations@;
            assert forall|i: int| 0 <= i < n implies (#[trigger] obs[i] matches Observation::Correct(h) ==> cited_right(t, p, i, h)) by {
                if let Observation::Correct(h) = obs[i] {
                    lemma_position(s, n, h);
                }
            }
        }
    }
    assert forall|h: C::Hash| #[trigger] g1.contains_key(h) implies crate::consensus::highway::unit::unit_linked(g1, *g1[h]) by {
        if h != hash {
            assert(crate::consensus::highway::unit::unit_linked(g, *g[h]));
        }
    }
    assert forall|h: C::Hash| #[trigger] g1.contains_key(h) implies crate::consensus::highway::unit::skip_list_right(g1, *g1[h]) by {
        let v = g1[h];
        if h != hash {
            assert(crate::consensus::highway::unit::unit_linked(g, *g[h]));
            assert(crate::consensus::highway::unit::skip_list_right(g, *g[h]));
        }
        if let Some(prev) = crate::consensus::highway::unit::previous_of(&*v) {
            let seq = v.seq_number as int;
            let skip = v.skip_idx@;
            assert forall|i: int| 0 <= i < skip.len() implies crate::consensus::highway::unit::skip_entry_right(g1, prev, seq, i, #[trigger] skip[i]) by {
                assert(crate::consensus::highway::unit::skip_entry_right(g, prev, seq, i, skip[i]));
                crate::consensus::highway::unit::lemma_ancestor_kept(g, hash, u, prev, seq - pow2(i as nat));
            }
        }
    }
}

/// The units of the protocol state.
pub struct UnitGraph<C: ContextTypes> {
    num_validators: usize,
    units: VecMap<C::Hash, Rc<Unit<C>>>,
}

impl<C: ContextTypes> UnitGraph<C> {
    /// The number of validators.
    pub closed spec fn validator_count(&self) -> int {
        self.num_validators as int
    }

    /// The graph is well-formed.
    pub open spec fn wf(&self) -> bool {
        graph_wf(self@, self.validator_count())
    }
}

impl<C: ContextTypes> View for UnitGraph<C> {
    type V = UnitOrder<C>;

    closed spec fn view(&self) -> UnitOrder<C> {
        self.units.seq()
    }
}

impl<C: Context> UnitGraph<C> {
    /// Creates an empty graph.
    pub fn new(num_validators: usize) -> (r: UnitGraph<C>)
        ensures
            r.wf(),
            r@ == UnitOrder::<C>::empty(),
            r.validator_count() == num_validators,
    {
        UnitGraph { num_validators, units: VecMap::new() }
    }

    /// Returns the units by hash.
    pub fn units(&self) -> (r: &VecMap<C::Hash, Rc<Unit<C>>>)
        ensures
            r.seq() == self@,
            r@ == units_of(self@),
    {
        &self.units
    }

    /// Returns the number of units.
    pub fn len(&self) -> (r: usize)
        ensures
            r == self@.len(),
    {
        self.units.len()
    }

    /// Returns whether there is a unit with the given hash.
    pub fn has_unit(&self, hash: &C::Hash) -> (r: bool)
        requires
            self.wf(),
        ensures
            r == units_of(self@).contains_key(*hash),
    {
        self.units.contains_key(hash)
    }

    /// Returns the unit with the given hash.
    pub fn unit(&self, hash: &C::Hash) -> (r: Rc<Unit<C>>)
        requires
            self.wf(),
            units_of(self@).contains_key(*hash),
        ensures
            r == units_of(self@)[*hash],
    {
        match self.units.index_of(hash) {
            Some(i) => self.units.value_at(i).clone(),
            None => {
                assert(false);
                self.units.value_at(0).clone()
            },
        }
    }

    /// Adds a unit.
    pub fn add(&mut self, hash: C::Hash, unit: Rc<Unit<C>>)
        requires
            old(self).wf(),
            !units_of(old(self)@).contains_key(hash),
            unit_fits(old(self)@, old(self).validator_count(), *unit),
        ensures
            final(self).wf(),
            final(self).validator_count() == old(self).validator_count(),
            final(self)@ == old(self)@.push((hash, unit)),
            units_of(final(self)@) == units_of(old(self)@).insert(hash, unit),
    {
        proof {
            lemma_graph_push(self@, self.validator_count(), hash, unit);
        }
        let _ = self.units.insert(hash, unit);
    }

    /// Returns hash of unit with given sequence number, in the swimlane that ends with the unit
    /// with the given hash; `None` if there is none.
    pub fn find_in_swimlane(&self, hash: &C::Hash, seq_number: u64) -> (r: Option<C::Hash>)
        requires
            self.wf(),
            units_of(self@).contains_key(*hash),
        ensures
            r == crate::consensus::highway::unit::ancestor(units_of(self@), *hash, seq_number as int),
    {
        let ghost g = units_of(self@);
        let mut current = *hash;
        loop
            invariant
                self.wf(),
                g == units_of(self@),
                g.contains_key(current),
                crate::consensus::highway::unit::ancestor(g, current, seq_number as int) == crate::consensus::highway::unit::ancestor(
                    g,
                    *hash,
                    seq_number as int,
                ),
            decreases g[current].seq_number,
        {
            let unit = self.unit(&current);
            if unit.seq_number < seq_number {
                // There is no unit with that sequence number in this swimlane.
                return None;
            }
            if unit.seq_number == seq_number {
                return Some(current);
            }
            proof {
                assert(crate::consensus::highway::unit::unit_linked(g, *g[current]));
                assert(crate::consensus::highway::unit::skip_list_right(g, *g[current]));
            }
            let diff = unit.seq_number - seq_number;
            // We want to make the greatest step 2^i such that 2^i <= diff.
            let mut i: usize = 0;
            let mut step: u64 = 1;
            proof {
                vstd::arithmetic::power2::lemma2_to64();
            }
            while i < unit.skip_idx.len() - 1 && step <= diff / 2
                invariant
                    i < unit.skip_idx@.len(),
                    step == pow2(i as nat),
                    1 <= step <= diff,
                decreases unit.skip_idx@.len() - i,
            {
                proof {
                    vstd::arithmetic::power2::lemma_pow2_unfold((i + 1) as nat);
                }
                i += 1;
                step = 2 * step;
            }
            let next = unit.skip_idx[i];
            proof {
                let prev = crate::consensus::highway::unit::previous_of(&*g[current])->0;
                let m = unit.seq_number - step;
                assert(crate::consensus::highway::unit::skip_entry_right(g, prev, unit.seq_number as int, i as int, unit.skip_idx@[i as int]));
                assert(crate::consensus::highway::unit::ancestor(g, prev, m) == Some(next));
                assert(crate::consensus::highway::unit::ancestor(g, current, m) == Some(next));
                crate::consensus::highway::unit::lemma_ancestor_is(g, current, m);
                crate::consensus::highway::unit::lemma_ancestor_of_ancestor(g, current, m, seq_number as int);
            }
            current = next;
        }
    }

    /// Returns whether `hash` sees `target` in the swimlane of a creator that it does not know to
    /// be faulty.
    pub fn sees_correct(&self, hash: &C::Hash, target: &C::Hash) -> (r: bool)
        requires
            self.wf(),
            units_of(self@).contains_key(*hash),
            units_of(self@).contains_key(*target),
        ensures
            r == sees_correct(self@, *hash, *target),
    {
        if hash.same(target) {
            return true;
        }
        let target_unit = self.unit(target);
        let unit = self.unit(hash);
        proof {
            lemma_position(self@, self.validator_count(), *hash);
        }
        match unit.panorama.get(target_unit.creator) {
            Observation::Correct(latest) => {
                assert(cited_right(self@, crate::collections::key_index(self@, *hash), target_unit.creator.0 as int, latest));
                match self.find_in_swimlane(&latest, target_unit.seq_number) {
                    Some(found) => found.same(target),
                    None => false,
                }
            },
            Observation::Unseen | Observation::Faulty => false,
        }
    }

    /// Returns whether `hash` sees `target`, directly or through the units it cites.
    pub fn sees(&self, hash: &C::Hash, target: &C::Hash) -> (r: bool)
        requires
            self.wf(),
            units_of(self@).contains_key(*hash),
            units_of(self@).contains_key(*target),
        ensures
            r == sees(self@, *hash, *target),
        decreases crate::collections::key_index(self@, *hash),
    {
        if hash.same(target) {
            return true;
        }
        let target_unit = self.unit(target);
        let unit = self.unit(hash);
        let ghost p = crate::collections::key_index(self@, *hash);
        proof {
            lemma_position(self@, self.validator_count(), *hash);
        }
        match unit.panorama.get(target_unit.creator) {
            Observation::Unseen => false,
            Observation::Correct(latest) => {
                assert(cited_right(self@, p, target_unit.creator.0 as int, latest));
                match self.find_in_swimlane(&latest, target_unit.seq_number) {
                    Some(found) => found.same(target),
                    None => false,
                }
            },
            Observation::Faulty => {
                let len = unit.panorama.len();
                let mut i: usize = 0;
                while i < len
                    invariant
                        i <= len,
                        len == unit.panorama.observations@.len(),
                        self.wf(),
                        units_of(self@).contains_key(*hash),
                        units_of(self@).contains_key(*target),
                        unit == units_of(self@)[*hash],
                        *hash != *target,
                        crate::consensus::highway::unit::sees_of(&*unit, units_of(self@)[*target].creator) is Faulty,
                        p == crate::collections::key_index(self@, *hash),
                        unit_ordered(self@, p, self.validator_count()),
                        0 <= p < self@.len(),
                        self@[p] == (*hash, unit),
                        forall|j: int| 0 <= j < i ==> !(#[trigger] unit.panorama.observations@[j] matches Observation::Correct(c)
                            && sees(self@, c, *target)),
                    decreases len - i,
                {
                    if let Observation::Correct(c) = unit.panorama.observations[i] {
                        proof {
                            assert(unit.panorama.observations@[i as int] == Observation::Correct(c));
                            assert(cited_right(self@, p, i as int, c));
                            lemma_position(self@, self.validator_count(), c);
                        }
                        if self.sees(&c, target) {
                            return true;
                        }
                    }
                    i += 1;
                }
                false
            },
        }
    }
}

} // verus!
