//! The units of the protocol state: votes with what follows from their place in it.

use crate::collections::{MapKey, VecMap};
use crate::consensus::highway::context::{Context, ContextTypes};
use crate::consensus::highway::panorama::Panorama;
use crate::consensus::highway::validators::ValidatorIndex;
use crate::consensus::highway::vertex::SignedWireVote;
use crate::timestamp::{TimeDiff, Timestamp};
use std::rc::Rc;
use vstd::arithmetic::power2::pow2;
use vstd::prelude::*;

verus! {

/// A vote that is part of the protocol state.
pub struct Unit<C: ContextTypes> {
    /// The list of latest messages and faults observed by the creator of this message.
    pub panorama: Rc<Panorama<C>>,
    /// The number of earlier messages by the same creator.
    pub seq_number: u64,
    /// The validator who created and sent this unit.
    pub creator: ValidatorIndex,
    /// The block this unit votes for. Either it or its parent must be the fork choice.
    pub block: C::Hash,
    /// A skip list index of the creator's swimlane, i.e. the previous unit by the same creator.
    ///
    /// For every `p = 1 << i` that divides `seq_number`, this contains an `i`-th entry pointing to
    /// the older unit with `seq_number - p`.
    pub skip_idx: Vec<C::Hash>,
    /// This unit's timestamp, in milliseconds since the epoch.
    pub timestamp: Timestamp,
    /// Original signature of the vote.
    pub signature: C::Signature,
    /// The round exponent of the current round, that this message belongs to.
    ///
    /// The current round consists of all timestamps that agree with this one in all but the last
    /// `round_exp` bits.
    pub round_exp: u8,
}

/// The units by hash.
pub type Units<C> = Map<<C as ContextTypes>::Hash, Rc<Unit<C>>>;

/// What the unit observed of a validator.
pub open spec fn sees_of<C: ContextTypes>(u: &Unit<C>, idx: ValidatorIndex) -> crate::consensus::highway::panorama::Observation<
    C::Hash,
> {
    crate::consensus::highway::panorama::observed(u.panorama.observations@, idx)
}

/// The previous unit by the same creator.
pub open spec fn previous_of<C: ContextTypes>(u: &Unit<C>) -> Option<C::Hash> {
    sees_of(u, u.creator).spec_correct()
}

/// The unit with sequence number `n` in the swimlane that ends with the unit `h`.
pub open spec fn ancestor<C: ContextTypes>(g: Units<C>, h: C::Hash, n: int) -> Option<C::Hash>
    decreases
            (if g.contains_key(h) {
                g[h].seq_number + 1
            } else {
                0
            }),
{
    if !g.contains_key(h) || n > g[h].seq_number {
        None
    } else if n == g[h].seq_number {
        Some(h)
    } else {
        match previous_of(&*g[h]) {
            Some(p) => if g.contains_key(p) && g[p].seq_number < g[h].seq_number {
                ancestor(g, p, n)
            } else {
                None
            },
            None => None,
        }
    }
}

/// The unit's place behind the creator's previous one.
pub open spec fn unit_linked<C: ContextTypes>(g: Units<C>, u: Unit<C>) -> bool {
    match sees_of(&u, u.creator) {
        crate::consensus::highway::panorama::Observation::Correct(p) => {
            g.contains_key(p) && g[p].creator == u.creator && g[p].seq_number + 1 == u.seq_number
        },
        crate::consensus::highway::panorama::Observation::Unseen => u.seq_number == 0,
        crate::consensus::highway::panorama::Observation::Faulty => false,
    }
}

/// Every unit stands behind its creator's previous one, without a gap.
pub open spec fn linked<C: ContextTypes>(g: Units<C>) -> bool {
    forall|h: C::Hash| #[trigger] g.contains_key(h) ==> unit_linked(g, *g[h])
}

/// The `i`-th power of two divides `seq`, and `h` is the unit that many places before in the
/// swimlane that ends with `prev`.
pub open spec fn skip_entry_right<C: ContextTypes>(g: Units<C>, prev: C::Hash, seq: int, i: int, h: C::Hash) -> bool {
    &&& seq % (pow2(i as nat) as int) == 0
    &&& ancestor(g, prev, seq - pow2(i as nat)) == Some(h)
}

/// For every `p = 1 << i` that divides `seq`, and for no other, `skip` contains an `i`-th entry
/// pointing to the unit with sequence number `seq - p` in the swimlane that ends with `prev`.
pub open spec fn skips<C: ContextTypes>(g: Units<C>, prev: C::Hash, seq: int, skip: Seq<C::Hash>) -> bool {
    &&& skip.len() > 0
    &&& forall|i: int| 0 <= i < skip.len() ==> skip_entry_right(g, prev, seq, i, #[trigger] skip[i])
    &&& seq % (pow2(skip.len()) as int) != 0
}

/// The skip list of a unit is right.
pub open spec fn skip_list_right<C: ContextTypes>(g: Units<C>, u: Unit<C>) -> bool {
    match previous_of(&u) {
        Some(prev) => skips(g, prev, u.seq_number as int, u.skip_idx@),
        None => u.skip_idx@.len() == 0,
    }
}

/// The skip list of every unit is right.
pub open spec fn skip_lists_right<C: ContextTypes>(g: Units<C>) -> bool {
    forall|h: C::Hash| #[trigger] g.contains_key(h) ==> skip_list_right(g, *g[h])
}

/// What stands at the given place of a swimlane has that sequence number and the same creator.
pub proof fn lemma_ancestor_is<C: ContextTypes>(g: Units<C>, h: C::Hash, n: int)
    requires
        linked(g),
        ancestor(g, h, n) is Some,
    ensures
        g.contains_key(h),
        g.contains_key(ancestor(g, h, n)->0),
        g[ancestor(g, h, n)->0].seq_number == n,
        g[ancestor(g, h, n)->0].creator == g[h].creator,
        n <= g[h].seq_number,
    decreases g[h].seq_number,
{
    if n < g[h].seq_number {
        assert(unit_linked(g, *g[h]));
        lemma_ancestor_is(g, previous_of(&*g[h])->0, n);
    }
}

/// A swimlane has a unit for every sequence number up to its last.
pub proof fn lemma_ancestor_exists<C: ContextTypes>(g: Units<C>, h: C::Hash, n: int)
    requires
        linked(g),
        g.contains_key(h),
        0 <= n <= g[h].seq_number,
    ensures
        ancestor(g, h, n) is Some,
    decreases g[h].seq_number,
{
    if n < g[h].seq_number {
        assert(unit_linked(g, *g[h]));
        lemma_ancestor_exists(g, previous_of(&*g[h])->0, n);
    }
}

/// The swimlane that ends with an ancestor is part of the whole.
pub proof fn lemma_ancestor_of_ancestor<C: ContextTypes>(g: Units<C>, h: C::Hash, m: int, n: int)
    requires
        linked(g),
        ancestor(g, h, m) is Some,
        n <= m,
    ensures
        ancestor(g, ancestor(g, h, m)->0, n) == ancestor(g, h, n),
    decreases g[h].seq_number,
{
    if m < g[h].seq_number {
        assert(unit_linked(g, *g[h]));
        lemma_ancestor_of_ancestor(g, previous_of(&*g[h])->0, m, n);
    }
}

/// New units do not change the swimlanes that end with old ones.
pub proof fn lemma_ancestor_kept<C: ContextTypes>(g: Units<C>, new: C::Hash, u: Rc<Unit<C>>, h: C::Hash, n: int)
    requires
        linked(g),
        !g.contains_key(new),
        g.contains_key(h),
    ensures
        ancestor(g.insert(new, u), h, n) == ancestor(g, h, n),
    decreases g[h].seq_number,
{
    if n < g[h].seq_number {
        assert(unit_linked(g, *g[h]));
        match previous_of(&*g[h]) {
            Some(p) => {
                lemma_ancestor_kept(g, new, u, p, n);
            },
            None => {},
        }
    }
}

/// A power of two that divides the next one divides what that one divides.
proof fn lemma_pow2_divides(seq: int, i: nat, j: nat)
    requires
        i <= j,
        seq % (pow2(j) as int) == 0,
    ensures
        seq % (pow2(i) as int) == 0,
{
    vstd::arithmetic::power2::lemma_pow2_pos(i);
    vstd::arithmetic::power2::lemma_pow2_pos(j);
    vstd::arithmetic::power2::lemma_pow2_pos((j - i) as nat);
    vstd::arithmetic::power2::lemma_pow2_adds(i, (j - i) as nat);
    let p = pow2(i) as int;
    let r = pow2((j - i) as nat) as int;
    vstd::arithmetic::div_mod::lemma_fundamental_div_mod(seq, p * r);
    let q = seq / (p * r);
    assert((p * r) * q == (r * q) * p) by (nonlinear_arith);
    vstd::arithmetic::div_mod::lemma_fundamental_div_mod_converse(seq, p, r * q, 0);
}

/// For every power of two that divides the sequence number of a unit there is an entry in its skip
/// list, which points back by as many units.
pub proof fn law_skip_list<C: ContextTypes>(g: Units<C>, h: C::Hash, i: nat)
    requires
        linked(g),
        skip_lists_right(g),
        g.contains_key(h),
        g[h].seq_number > 0,
        g[h].seq_number as int % (pow2(i) as int) == 0,
    ensures
        i < g[h].skip_idx@.len(),
        ancestor(g, h, g[h].seq_number - pow2(i)) == Some(g[h].skip_idx@[i as int]),
        g.contains_key(g[h].skip_idx@[i as int]),
        g[g[h].skip_idx@[i as int]].seq_number == g[h].seq_number - pow2(i),
        g[g[h].skip_idx@[i as int]].creator == g[h].creator,
{
    let u = *g[h];
    assert(unit_linked(g, u));
    assert(skip_list_right(g, u));
    if i >= u.skip_idx@.len() {
        lemma_pow2_divides(u.seq_number as int, u.skip_idx@.len(), i);
    }
    vstd::arithmetic::power2::lemma_pow2_pos(i);
    let _ = u.skip_idx@[i as int];
    lemma_ancestor_is(g, h, u.seq_number - pow2(i));
}

/// The first entry of a unit's skip list is the creator's previous unit.
pub proof fn lemma_first_skip<C: ContextTypes>(g: Units<C>, h: C::Hash)
    requires
        linked(g),
        skip_lists_right(g),
        g.contains_key(h),
        previous_of(&*g[h]) is Some,
    ensures
        g[h].skip_idx@.len() > 0,
        g[h].skip_idx@[0] == previous_of(&*g[h])->0,
        g.contains_key(g[h].skip_idx@[0]),
{
    let u = *g[h];
    assert(unit_linked(g, u));
    assert(skip_list_right(g, u));
    vstd::arithmetic::power2::lemma2_to64();
    assert(skip_entry_right(g, previous_of(&u)->0, u.seq_number as int, 0, u.skip_idx@[0]));
}

/// Where the swimlane that ends with the unit at position `i` of the skip list goes on.
proof fn lemma_next_skip<C: ContextTypes>(g: Units<C>, prev: C::Hash, seq: int, skip: C::Hash, i: nat)
    requires
        linked(g),
        skip_lists_right(g),
        seq > 0,
        seq % (pow2(i + 1) as int) == 0,
        g.contains_key(prev),
        g[prev].seq_number == seq - 1,
        ancestor(g, prev, seq - pow2(i)) == Some(skip),
    ensures
        g.contains_key(skip),
        i < g[skip].skip_idx@.len(),
        ancestor(g, prev, seq - pow2(i + 1)) == Some(g[skip].skip_idx@[i as int]),
{
    lemma_ancestor_is(g, prev, seq - pow2(i));
    vstd::arithmetic::power2::lemma_pow2_unfold(i + 1);
    vstd::arithmetic::power2::lemma_pow2_pos(i);
    let p = pow2(i) as int;
    lemma_pow2_divides(seq, i, i + 1);
    vstd::arithmetic::div_mod::lemma_fundamental_div_mod(seq, p);
    let q = seq / p;
    assert(p * (q - 1) == p * q - p) by (nonlinear_arith);
    assert((q - 1) * p == p * (q - 1)) by (nonlinear_arith);
    vstd::arithmetic::div_mod::lemma_fundamental_div_mod_converse(seq - p, p, q - 1, 0);
    assert(seq >= 2 * p) by {
        if seq < 2 * p {
            vstd::arithmetic::div_mod::lemma_small_mod(seq as nat, (2 * p) as nat);
        }
    }
    law_skip_list(g, skip, i);
    lemma_ancestor_of_ancestor(g, prev, seq - pow2(i), seq - pow2(i + 1));
}

/// The time at which the round of length `1 << round_exp` that contains `timestamp` began.
pub open spec fn round_start(timestamp: Timestamp, round_exp: u8) -> int {
    timestamp.0 as int / (pow2(round_exp as nat) as int) * (pow2(round_exp as nat) as int)
}

/// Returns the round ID for a timestamp: the time at which its round began.
pub fn round_id(timestamp: Timestamp, round_exp: u8) -> (r: Timestamp)
    requires
        round_exp < 64,
    ensures
        r.0 == round_start(timestamp, round_exp),
{
    proof {
        let p = pow2(round_exp as nat) as int;
        vstd::arithmetic::power2::lemma_pow2_pos(round_exp as nat);
        vstd::bits::lemma_u64_shr_is_div(timestamp.0, round_exp as u64);
        vstd::arithmetic::div_mod::lemma_fundamental_div_mod(timestamp.0 as int, p);
        let q = timestamp.0 >> (round_exp as u64);
        assert(q * p == p * q) by (nonlinear_arith);
        vstd::arithmetic::div_mod::lemma_mod_bound(timestamp.0 as int, p);
        vstd::bits::lemma_u64_shl_is_mul(q, round_exp as u64);
    }
    Timestamp((timestamp.0 >> (round_exp as u64)) << (round_exp as u64))
}

/// Returns the length of the round with the given exponent.
pub fn round_len(round_exp: u8) -> (r: TimeDiff)
    requires
        round_exp < 64,
    ensures
        r.0 == pow2(round_exp as nat),
{
    proof {
        vstd::arithmetic::power2::lemma_pow2_strictly_increases(round_exp as nat, 64);
        vstd::arithmetic::power2::lemma2_to64();
        vstd::arithmetic::power2::lemma2_to64_rest();
        vstd::bits::lemma_u64_shl_is_mul(1, round_exp as u64);
    }
    TimeDiff(1u64 << (round_exp as u64))
}

impl<C: Context> Unit<C> {
    /// The vote can be placed in the protocol state: the creator's previous unit is there, with
    /// the sequence number before that of the vote.
    pub open spec fn can_be_placed(g: Units<C>, vote: SignedWireVote<C>) -> bool {
        match crate::consensus::highway::panorama::observed(
            vote.wire_vote.panorama.observations@,
            vote.wire_vote.creator,
        ) {
            crate::consensus::highway::panorama::Observation::Correct(p) => {
                g.contains_key(p) && g[p].creator == vote.wire_vote.creator && g[p].seq_number + 1
                    == vote.wire_vote.seq_number
            },
            _ => true,
        }
    }

    /// The unit that a vote becomes.
    pub open spec fn is_of(self, g: Units<C>, vote: SignedWireVote<C>, fork_choice: Option<C::Hash>) -> bool {
        &&& self.panorama == vote.wire_vote.panorama
        &&& self.seq_number == vote.wire_vote.seq_number
        &&& self.creator == vote.wire_vote.creator
        &&& self.timestamp == vote.wire_vote.timestamp
        &&& self.signature == vote.signature
        &&& self.round_exp == vote.wire_vote.round_exp
        &&& self.block == if vote.wire_vote.value is Some {
            C::vote_hash(vote.wire_vote@)
        } else {
            fork_choice->0
        }
        &&& skip_list_right(g, self)
    }

    /// Creates a new unit from a vote, and returns the value if it contained any.
    /// Values must be stored as a block, with the same hash.
    pub fn new(
        swvote: &SignedWireVote<C>,
        fork_choice: Option<C::Hash>,
        units: &VecMap<C::Hash, Rc<Unit<C>>>,
    ) -> (r: (Unit<C>, Option<C::ConsensusValue>))
        requires
            units.wf(),
            linked(units@),
            skip_lists_right(units@),
            Unit::can_be_placed(units@, *swvote),
            swvote.wire_vote.value is None ==> fork_choice is Some,
        ensures
            r.0.is_of(units@, *swvote, fork_choice),
            r.1 == swvote.wire_vote.value,
    {
        let wvote = &swvote.wire_vote;
        let hash = wvote.hash();
        let block = match wvote.value {
            Some(_) => hash,  // A vote with a new block votes for itself.
            None => match fork_choice {
                // If the vote didn't introduce a new block, it votes for the fork choice itself.
                Some(choice) => choice,
                None => hash,
            },
        };
        let mut skip_idx: Vec<C::Hash> = Vec::new();
        let seq_number = wvote.seq_number;
        if let Some(prev) = wvote.panorama.get(wvote.creator).correct() {
            let ghost g = units@;
            skip_idx.push(prev);
            let mut i: usize = 0;
            let mut p: u64 = 1;
            proof {
                vstd::arithmetic::power2::lemma2_to64();
                vstd::arithmetic::div_mod::lemma_mod_is_zero(seq_number as nat, 1);
            }
            while p <= seq_number / 2 && seq_number % (2 * p) == 0
                invariant
                    units.wf(),
                    g == units@,
                    linked(g),
                    skip_lists_right(g),
                    g.contains_key(prev),
                    g[prev].seq_number + 1 == seq_number,
                    seq_number > 0,
                    i < 64,
                    1 <= p <= seq_number,
                    p == pow2(i as nat),
                    skip_idx@.len() == i + 1,
                    forall|j: int| 0 <= j <= i ==> skip_entry_right(g, prev, seq_number as int, j, #[trigger] skip_idx@[j]),
                decreases seq_number - p,
            {
                let ghost before = skip_idx@;
                proof {
                    vstd::arithmetic::power2::lemma_pow2_unfold((i + 1) as nat);
                    lemma_next_skip(g, prev, seq_number as int, skip_idx@[i as int], i as nat);
                    if i == 63 {
                        vstd::arithmetic::power2::lemma2_to64_rest();
                    }
                }
                let old_hash = skip_idx[i];
                match units.get(&old_hash) {
                    Some(old_unit) => skip_idx.push(old_unit.skip_idx[i]),
                    None => {
                        assert(false);
                    },
                }
                i += 1;
                p = 2 * p;
                assert forall|j: int| 0 <= j <= i implies skip_entry_right(g, prev, seq_number as int, j, #[trigger] skip_idx@[j]) by {
                    if j < i {
                        assert(skip_idx@[j] == before[j]);
                    }
                }
            }
            proof {
                vstd::arithmetic::power2::lemma_pow2_unfold((i + 1) as nat);
                if p > seq_number / 2 {
                    assert(seq_number < 2 * p);
                    vstd::arithmetic::div_mod::lemma_small_mod(seq_number as nat, (2 * p) as nat);
                }
                assert(seq_number as int % (pow2(skip_idx@.len()) as int) != 0);
                assert(skips(g, prev, seq_number as int, skip_idx@));
            }
        }
        let unit = Unit {
            panorama: wvote.panorama.clone(),
            seq_number,
            creator: wvote.creator,
            block,
            skip_idx,
            timestamp: wvote.timestamp,
            signature: swvote.signature,
            round_exp: wvote.round_exp,
        };
        (unit, wvote.value)
    }

    /// Returns the creator's previous message.
    pub fn previous(&self) -> (r: Option<C::Hash>)
        ensures
            r == if self.skip_idx@.len() > 0 {
                Some(self.skip_idx@[0])
            } else {
                None
            },
    {
        if self.skip_idx.len() > 0 {
            Some(self.skip_idx[0])
        } else {
            None
        }
    }

    /// Returns the time at which the round containing this unit began.
    pub fn round_id(&self) -> (r: Timestamp)
        requires
            self.round_exp < 64,
        ensures
            r.0 == round_start(self.timestamp, self.round_exp),
    {
        round_id(self.timestamp, self.round_exp)
    }

    /// Returns the length of the round containing this unit.
    pub fn round_len(&self) -> (r: TimeDiff)
        requires
            self.round_exp < 64,
        ensures
            r.0 == pow2(self.round_exp as nat),
    {
        round_len(self.round_exp)
    }

    /// Returns whether `unit` cites a new unit from `vidx` in the last panorama.
    /// i.e. whether previous unit from creator of `vhash` cites different unit by `vidx`.
    ///
    /// NOTE: Returns `false` if `vidx` is faulty or hasn't produced any units according to the
    /// creator of `vhash`.
    pub fn new_hash_obs(&self, units: &VecMap<C::Hash, Rc<Unit<C>>>, vidx: ValidatorIndex) -> (r: bool)
        requires
            units.wf(),
            self.skip_idx@.len() > 0 ==> units@.contains_key(self.skip_idx@[0]),
        ensures
            r == (self.skip_idx@.len() > 0 && {
                let latest = sees_of(self, vidx);
                let penultimate = sees_of(&*units@[self.skip_idx@[0]], vidx);
                latest is Correct && penultimate is Correct && latest != penultimate
            }),
    {
        let latest_obs = self.panorama.get(vidx).correct();
        let penultimate_obs = match self.previous() {
            Some(prev) => match units.get(&prev) {
                Some(unit) => unit.panorama.get(vidx).correct(),
                None => None,
            },
            None => None,
        };
        match (latest_obs, penultimate_obs) {
            (Some(latest_hash), Some(penultimate_hash)) => !latest_hash.same(&penultimate_hash),
            _ => false,
        }
    }
}

} // verus!
