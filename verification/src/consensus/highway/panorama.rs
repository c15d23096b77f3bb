//! What a validator has observed of the others.

use crate::collections::MapKey;
use crate::consensus::highway::context::ContextTypes;
use crate::consensus::highway::validators::ValidatorIndex;
use vstd::prelude::*;

verus! {

/// The observed behavior of a validator at some point in time.
#[derive(Copy, Debug)]
pub enum Observation<H> {
    /// No vote by that validator was observed yet.
    Unseen,
    /// The validator's latest vote.
    Correct(H),
    /// The validator has been seen equivocating.
    Faulty,
}

impl<H: Copy> Clone for Observation<H> {
    fn clone(&self) -> (r: Observation<H>)
        ensures
            r == *self,
    {
        *self
    }
}

impl<H> Observation<H> {
    /// The latest vote of a validator that is not known to be faulty.
    pub open spec fn spec_correct(self) -> Option<H> {
        match self {
            Observation::Correct(h) => Some(h),
            _ => None,
        }
    }
}

impl<H: MapKey> Observation<H> {
    /// Returns the vote hash, if this is a correct observation.
    pub fn correct(&self) -> (r: Option<H>)
        ensures
            r == self.spec_correct(),
    {
        match self {
            Observation::Correct(h) => Some(*h),
            Observation::Unseen | Observation::Faulty => None,
        }
    }

    /// Returns whether the validator has been seen equivocating.
    pub fn is_faulty(&self) -> (r: bool)
        ensures
            r == (*self is Faulty),
    {
        match self {
            Observation::Faulty => true,
            Observation::Unseen | Observation::Correct(_) => false,
        }
    }

    /// Returns whether two observations are the same.
    pub fn same_observation(&self, other: &Observation<H>) -> (r: bool)
        ensures
            r == (*self == *other),
    {
        match (self, other) {
            (Observation::Unseen, Observation::Unseen) => true,
            (Observation::Faulty, Observation::Faulty) => true,
            (Observation::Correct(a), Observation::Correct(b)) => a.same(b),
            _ => false,
        }
    }
}

/// The observed behavior of all validators at some point in time.
pub struct Panorama<C: ContextTypes> {
    pub observations: Vec<Observation<C::Hash>>,
}

/// What was observed of a validator.
pub open spec fn observed<H>(panorama: Seq<Observation<H>>, idx: ValidatorIndex) -> Observation<H> {
    if idx.0 < panorama.len() {
        panorama[idx.0 as int]
    } else {
        Observation::Unseen
    }
}

/// The vote is the latest observed of some validator not known to be faulty.
pub open spec fn cites<H>(panorama: Seq<Observation<H>>, hash: H) -> bool {
    exists|i: int| 0 <= i < panorama.len() && #[trigger] panorama[i] == Observation::Correct(hash)
}

/// The hashes of all correct observations, in the order of the validators.
pub open spec fn correct_of<H>(panorama: Seq<Observation<H>>) -> Seq<H>
    decreases panorama.len(),
{
    if panorama.len() == 0 {
        Seq::empty()
    } else {
        match panorama.last() {
            Observation::Correct(hash) => correct_of(panorama.drop_last()).push(hash),
            _ => correct_of(panorama.drop_last()),
        }
    }
}

impl<C: ContextTypes> Panorama<C> {
    /// Creates a new, empty panorama.
    pub fn new(num_validators: usize) -> (r: Panorama<C>)
        ensures
            r.observations@ == Seq::new(num_validators as nat, |i: int| Observation::<C::Hash>::Unseen),
    {
        let mut observations: Vec<Observation<C::Hash>> = Vec::new();
        let mut i: usize = 0;
        while i < num_validators
            invariant
                i <= num_validators,
                observations@ == Seq::new(i as nat, |i: int| Observation::<C::Hash>::Unseen),
            decreases num_validators - i,
        {
            observations.push(Observation::Unseen);
            assert(observations@ =~= Seq::new((i + 1) as nat, |i: int| Observation::<C::Hash>::Unseen));
            i += 1;
        }
        Panorama { observations }
    }

    /// Returns the number of validators.
    pub fn len(&self) -> (r: usize)
        ensures
            r == self.observations@.len(),
    {
        self.observations.len()
    }

    /// Returns what was observed of a validator.
    pub fn get(&self, idx: ValidatorIndex) -> (r: Observation<C::Hash>)
        ensures
            r == observed(self.observations@, idx),
    {
        if (idx.0 as u64) < self.observations.len() as u64 {
            self.observations[idx.0 as usize]
        } else {
            Observation::Unseen
        }
    }

    /// Returns `true` if there is at least one correct observation.
    pub fn has_correct(&self) -> (r: bool)
        ensures
            r == exists|i: int| 0 <= i < self.observations@.len() && #[trigger] self.observations@[i] is Correct,
    {
        let mut i: usize = 0;
        while i < self.observations.len()
            invariant
                i <= self.observations@.len(),
                forall|j: int| 0 <= j < i ==> !(#[trigger] self.observations@[j] is Correct),
            decreases self.observations@.len() - i,
        {
            if self.observations[i].correct().is_some() {
                return true;
            }
            i += 1;
        }
        false
    }

    /// Returns whether two panoramas are the same.
    pub fn same_panorama(&self, other: &Panorama<C>) -> (r: bool)
        ensures
            r == (self.observations@ == other.observations@),
    {
        if self.observations.len() != other.observations.len() {
            return false;
        }
        let mut i: usize = 0;
        while i < self.observations.len()
            invariant
                i <= self.observations@.len(),
                self.observations@.len() == other.observations@.len(),
                forall|j: int| 0 <= j < i ==> self.observations@[j] == other.observations@[j],
            decreases self.observations@.len() - i,
        {
            if !self.observations[i].same_observation(&other.observations[i]) {
                return false;
            }
            i += 1;
        }
        assert(self.observations@ =~= other.observations@);
        true
    }

    /// Returns the hashes of all correct observations, in the order of the validators.
    pub fn correct_hashes(&self) -> (r: Vec<C::Hash>)
        ensures
            r@ == correct_of(self.observations@),
            forall|h: C::Hash| r@.contains(h) == cites(self.observations@, h),
    {
        let mut r: Vec<C::Hash> = Vec::new();
        let mut i: usize = 0;
        while i < self.observations.len()
            invariant
                i <= self.observations@.len(),
                r@ == correct_of(self.observations@.take(i as int)),
                forall|h: C::Hash| #[trigger] r@.contains(h) == cites(self.observations@.take(i as int), h),
            decreases self.observations@.len() - i,
        {
            let ghost before = r@;
            let ghost prefix = self.observations@.take(i as int);
            let ghost next = self.observations@.take(i + 1);
            let obs = self.observations[i];
            if let Observation::Correct(hash) = obs {
                r.push(hash);
            }
            proof {
                assert(next =~= prefix.push(obs));
                assert(next.drop_last() =~= prefix);
                assert forall|h: C::Hash| #[trigger] r@.contains(h) == cites(next, h) by {
                    assert(before.contains(h) == cites(prefix, h));
                    if before.contains(h) {
                        let j = choose|j: int| 0 <= j < prefix.len() && #[trigger] prefix[j] == Observation::Correct(h);
                        assert(next[j] == Observation::Correct(h));
                        let k = before.index_of(h);
                        assert(r@[k] == h);
                    } else {
                        if r@.contains(h) {
                            let k = r@.index_of(h);
                            assert(k == before.len()) by {
                                if k < before.len() {
                                    assert(before[k] == h);
                                }
                            }
                            assert(next[i as int] == Observation::Correct(h));
                        }
                        if cites(next, h) {
                            let j = choose|j: int| 0 <= j < next.len() && #[trigger] next[j] == Observation::Correct(h);
                            assert(j == i) by {
                                if j < i {
                                    assert(prefix[j] == next[j]);
                                }
                            }
                            assert(r@[before.len() as int] == h);
                        }
                    }
                }
            }
            i += 1;
        }
        assert(self.observations@.take(self.observations@.len() as int) =~= self.observations@);
        r
    }
}

} // verus!
