//! The validators of an era and their weights.

use crate::collections::MapKey;
use vstd::prelude::*;

verus! {

/// The index of a validator, in a list of all validators.
#[derive(Clone, Copy, Debug, PartialEq, Eq, PartialOrd, Ord, Hash, Structural)]
pub struct ValidatorIndex(pub u32);

impl MapKey for ValidatorIndex {
    fn same(&self, other: &ValidatorIndex) -> (b: bool) {
        self.0 == other.0
    }
}

/// Information about a validator: their ID and weight.
#[derive(Copy, Debug)]
pub struct Validator<VID> {
    pub weight: u64,
    pub id: VID,
    pub banned: bool,
}

impl<VID: Copy> Clone for Validator<VID> {
    fn clone(&self) -> (r: Validator<VID>)
        ensures
            r == *self,
    {
        *self
    }
}

/// The validators' IDs and weight map.
pub struct Validators<VID> {
    validators: Vec<Validator<VID>>,
}

impl<VID> View for Validators<VID> {
    type V = Seq<Validator<VID>>;

    closed spec fn view(&self) -> Seq<Validator<VID>> {
        self.validators@
    }
}

/// The position of the validator with the given ID.
pub open spec fn index_of_id<VID>(s: Seq<Validator<VID>>, id: VID) -> Option<ValidatorIndex>
    decreases s.len(),
{
    if s.len() == 0 {
        None
    } else {
        match index_of_id(s.drop_last(), id) {
            Some(i) => Some(i),
            None => if s.last().id == id {
                Some(ValidatorIndex((s.len() - 1) as u32))
            } else {
                None
            },
        }
    }
}

/// The sum of the weights.
pub open spec fn weight_sum<VID>(s: Seq<Validator<VID>>) -> int
    decreases s.len(),
{
    if s.len() == 0 {
        0
    } else {
        weight_sum(s.drop_last()) + s.last().weight
    }
}

impl<VID: MapKey> Validators<VID> {
    /// Every validator has an index.
    pub open spec fn wf(&self) -> bool {
        self@.len() <= u32::MAX
    }

    /// Creates the list of validators from their IDs and weights, none of them banned.
    pub fn from_weights(weights: &Vec<(VID, u64)>) -> (r: Validators<VID>)
        ensures
            r@ == weights@.map_values(|w: (VID, u64)| Validator { weight: w.1, id: w.0, banned: false }),
    {
        let mut validators: Vec<Validator<VID>> = Vec::new();
        let ghost all = weights@.map_values(|w: (VID, u64)| Validator { weight: w.1, id: w.0, banned: false });
        let mut i: usize = 0;
        while i < weights.len()
            invariant
                i <= weights@.len(),
                all == weights@.map_values(|w: (VID, u64)| Validator { weight: w.1, id: w.0, banned: false }),
                validators@ == all.take(i as int),
            decreases weights@.len() - i,
        {
            let (id, weight) = weights[i];
            validators.push(Validator { weight, id, banned: false });
            assert(validators@ =~= all.take(i + 1));
            i += 1;
        }
        assert(all.take(weights@.len() as int) =~= all);
        Validators { validators }
    }

    /// Returns the number of validators.
    pub fn len(&self) -> (r: usize)
        ensures
            r == self@.len(),
    {
        self.validators.len()
    }

    /// Returns the validator at the given position.
    pub fn at(&self, i: usize) -> (r: &Validator<VID>)
        requires
            i < self@.len(),
        ensures
            *r == self@[i as int],
    {
        &self.validators[i]
    }

    /// Returns the sum of all validators' weights.
    pub fn total_weight(&self) -> (r: u64)
        requires
            weight_sum(self@) <= u64::MAX,
        ensures
            r == weight_sum(self@),
    {
        let mut total: u64 = 0;
        let mut i: usize = 0;
        assert(self@.take(0) =~= Seq::empty());
        while i < self.validators.len()
            invariant
                i <= self@.len(),
                weight_sum(self@) <= u64::MAX,
                total == weight_sum(self@.take(i as int)),
            decreases self@.len() - i,
        {
            proof {
                assert(self@.take(i + 1).drop_last() =~= self@.take(i as int));
                lemma_weight_prefix(self@, i + 1);
            }
            total = total + self.validators[i].weight;
            i += 1;
        }
        assert(self@.take(self@.len() as int) =~= self@);
        total
    }

    /// Returns the index of the validator with the given ID.
    pub fn get_index(&self, id: &VID) -> (r: Option<ValidatorIndex>)
        requires
            self.wf(),
        ensures
            r == index_of_id(self@, *id),
            r matches Some(idx) ==> idx.0 < self@.len() && self@[idx.0 as int].id == *id,
    {
        let mut i: usize = 0;
        assert(self@.take(0) =~= Seq::empty());
        while i < self.validators.len()
            invariant
                i <= self@.len(),
                self.wf(),
                index_of_id(self@.take(i as int), *id) is None,
            decreases self@.len() - i,
        {
            assert(self@.take(i + 1).drop_last() =~= self@.take(i as int));
            if self.validators[i].id.same(id) {
                proof {
                    lemma_index_prefix(self@, *id, i + 1);
                }
                return Some(ValidatorIndex(i as u32));
            }
            i += 1;
        }
        assert(self@.take(self@.len() as int) =~= self@);
        None
    }

    /// Returns the ID of the validator with the given index.
    pub fn id(&self, idx: ValidatorIndex) -> (r: Option<&VID>)
        ensures
            match r {
                Some(id) => idx.0 < self@.len() && *id == self@[idx.0 as int].id,
                None => idx.0 >= self@.len(),
            },
    {
        if (idx.0 as u64) < self.validators.len() as u64 {
            Some(&self.validators[idx.0 as usize].id)
        } else {
            None
        }
    }

    /// Bans a validator: their votes will not be accepted.
    pub fn ban(&mut self, id: &VID)
        requires
            old(self).wf(),
        ensures
            final(self).wf(),
            final(self)@ == match index_of_id(old(self)@, *id) {
                Some(idx) => old(self)@.update(
                    idx.0 as int,
                    Validator { banned: true, ..old(self)@[idx.0 as int] },
                ),
                None => old(self)@,
            },
    {
        if let Some(idx) = self.get_index(id) {
            self.validators[idx.0 as usize].banned = true;
        }
    }
}

/// What a prefix adds up to is no more than the whole.
proof fn lemma_weight_prefix<VID>(s: Seq<Validator<VID>>, n: int)
    requires
        0 <= n <= s.len(),
    ensures
        0 <= weight_sum(s.take(n)) <= weight_sum(s),
    decreases s.len(),
{
    if n == s.len() {
        assert(s.take(n) =~= s);
        if n > 0 {
            lemma_weight_prefix(s.drop_last(), n - 1);
        }
    } else {
        lemma_weight_prefix(s.drop_last(), n);
        assert(s.drop_last().take(n) =~= s.take(n));
    }
}

/// The first validator with an ID stays the first.
proof fn lemma_index_prefix<VID>(s: Seq<Validator<VID>>, id: VID, n: int)
    requires
        0 <= n <= s.len(),
        index_of_id(s.take(n), id) is Some,
    ensures
        index_of_id(s, id) == index_of_id(s.take(n), id),
    decreases s.len(),
{
    if n == s.len() {
        assert(s.take(n) =~= s);
    } else {
        assert(s.drop_last().take(n) =~= s.take(n));
        lemma_index_prefix(s.drop_last(), id, n);
    }
}

/// The index of an identifier is the first place where it stands; there is none exactly if it stands
/// nowhere.
pub proof fn law_index_is_where_the_validator_stands<VID>(s: Seq<Validator<VID>>, id: VID, i: int)
    requires
        s.len() <= u32::MAX,
        0 <= i < s.len(),
    ensures
        match index_of_id(s, id) {
            Some(idx) => idx.0 < s.len() && s[idx.0 as int].id == id && (s[i].id == id ==> idx.0 <= i),
            None => s[i].id != id,
        },
    decreases s.len(),
{
    let front = s.drop_last();
    let last = s.len() - 1;
    if front.len() > 0 {
        law_index_is_where_the_validator_stands(
            front,
            id,
            if i < last {
                i
            } else {
                0
            },
        );
        match index_of_id(front, id) {
            Some(idx) => {
                assert(front[idx.0 as int] == s[idx.0 as int]);
            },
            None => {},
        }
        if i < last {
            assert(front[i] == s[i]);
        }
    } else {
        assert(index_of_id(front, id) is None);
    }
}

/// The total weight is the sum of all weights.
pub proof fn law_total_weight<VID>(s: Seq<Validator<VID>>)
    ensures
        weight_sum(s) == s.fold_left(0int, |a: int, v: Validator<VID>| a + v.weight),
    decreases s.len(),
{
    if s.len() > 0 {
        law_total_weight(s.drop_last());
    }
}

} // verus!
