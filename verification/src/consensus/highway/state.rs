//! The protocol state: the units, faults and endorsements that are known.

use crate::collections::{MapKey, VecMap};
use crate::consensus::highway::context::{Context, ContextTypes};
use crate::consensus::highway::evidence::Evidence;
use crate::consensus::highway::graph::UnitGraph;
use crate::consensus::highway::panorama::{Observation, Panorama};
use crate::consensus::highway::unit::Unit;
use crate::consensus::highway::validators::ValidatorIndex;
use crate::consensus::highway::vertex::{Dependency, Endorsements, SignedWireVote};
use crate::timestamp::Timestamp;
use std::rc::Rc;
use vstd::prelude::*;

verus! {

/// Protocol parameters for Highway.
#[derive(Clone, Copy, Debug, PartialEq, Eq, Structural)]
pub struct Params {
    seed: u64,
    block_reward: u64,
    reduced_block_reward: u64,
    min_round_exp: u8,
    end_height: u64,
    start_timestamp: Timestamp,
    end_timestamp: Timestamp,
}

impl Params {
    /// The parameters with the given values.
    pub closed spec fn of(
        seed: u64,
        block_reward: u64,
        reduced_block_reward: u64,
        min_round_exp: u8,
        end_height: u64,
        start_timestamp: Timestamp,
        end_timestamp: Timestamp,
    ) -> Params {
        Params { seed, block_reward, reduced_block_reward, min_round_exp, end_height, start_timestamp, end_timestamp }
    }

    /// The minimum round exponent.
    pub closed spec fn spec_min_round_exp(&self) -> u8 {
        self.min_round_exp
    }

    /// The earliest time at which a vote can be made.
    pub closed spec fn spec_start_timestamp(&self) -> Timestamp {
        self.start_timestamp
    }

    /// The random seed.
    pub closed spec fn spec_seed(&self) -> u64 {
        self.seed
    }

    /// The reward for a finalized block.
    pub closed spec fn spec_block_reward(&self) -> u64 {
        self.block_reward
    }

    /// The reduced reward for a block that was finalized late.
    pub closed spec fn spec_reduced_block_reward(&self) -> u64 {
        self.reduced_block_reward
    }

    /// The height at which the instance may end.
    pub closed spec fn spec_end_height(&self) -> u64 {
        self.end_height
    }

    /// The time at which the instance may end.
    pub closed spec fn spec_end_timestamp(&self) -> Timestamp {
        self.end_timestamp
    }

    /// The parameters are those that they were made of.
    pub proof fn lemma_of(
        seed: u64,
        block_reward: u64,
        reduced_block_reward: u64,
        min_round_exp: u8,
        end_height: u64,
        start_timestamp: Timestamp,
        end_timestamp: Timestamp,
    )
        ensures
            ({
                let p = Params::of(
                    seed,
                    block_reward,
                    reduced_block_reward,
                    min_round_exp,
                    end_height,
                    start_timestamp,
                    end_timestamp,
                );
                &&& p.spec_seed() == seed
                &&& p.spec_block_reward() == block_reward
                &&& p.spec_reduced_block_reward() == reduced_block_reward
                &&& p.spec_min_round_exp() == min_round_exp
                &&& p.spec_end_height() == end_height
                &&& p.spec_start_timestamp() == start_timestamp
                &&& p.spec_end_timestamp() == end_timestamp
            }),
    {
    }

    /// Creates a new set of Highway protocol parameters.
    pub fn new(
        seed: u64,
        block_reward: u64,
        reduced_block_reward: u64,
        min_round_exp: u8,
        end_height: u64,
        start_timestamp: Timestamp,
        end_timestamp: Timestamp,
    ) -> (r: Params)
        ensures
            r == Params::of(
                seed,
                block_reward,
                reduced_block_reward,
                min_round_exp,
                end_height,
                start_timestamp,
                end_timestamp,
            ),
            r.spec_min_round_exp() == min_round_exp,
            r.spec_start_timestamp() == start_timestamp,
    {
        Params { seed, block_reward, reduced_block_reward, min_round_exp, end_height, start_timestamp, end_timestamp }
    }

    /// Returns the minimum round exponent. `1 << self.min_round_exp()` milliseconds is the minimum
    /// round length.
    pub fn min_round_exp(&self) -> (r: u8)
        ensures
            r == self.spec_min_round_exp(),
    {
        self.min_round_exp
    }

    /// Returns the start timestamp of the era.
    pub fn start_timestamp(&self) -> (r: Timestamp)
        ensures
            r == self.spec_start_timestamp(),
    {
        self.start_timestamp
    }
}

/// A reason for a validator to be marked as faulty.
///
/// The `Banned` state is fixed from the beginning and can't be replaced. However, `Indirect` can
/// be replaced with `Direct` evidence, which has the same effect but doesn't rely on information
/// from other consensus protocol instances.
pub enum Fault<C: ContextTypes> {
    /// The validator was known to be malicious from the beginning. All their messages are
    /// considered invalid in this Highway instance.
    Banned,
    /// We have direct evidence of the validator's fault.
    Direct(Rc<Evidence<C>>),
    /// The validator is known to be faulty, but the evidence is not in this Highway instance.
    Indirect,
}

/// An error due to an invalid vote.
#[derive(Clone, Copy, Debug, PartialEq, Eq, Structural)]
pub enum VoteError {
    /// The vote's creator is not a validator.
    Creator,
    /// The vote was made for another protocol instance.
    InstanceId,
    /// The signature is invalid.
    Signature,
    /// The creator is banned.
    Banned,
    /// The round length is less than the minimum.
    RoundLengthExpLessThanMinimum,
    /// The round length cannot be expressed.
    RoundLengthExpGreaterThanMaximum,
    /// The vote neither proposes a block nor cites any vote.
    MissingBlock,
    /// The panorama is not one of all validators.
    PanoramaLength,
    /// The creator claims to be faulty.
    FaultyCreator,
    /// The panorama cites a vote in the place of another creator.
    PanoramaIndex,
    /// The vote is older than one that it cites.
    Timestamps,
    /// The sequence number is not the one behind the creator's previous vote.
    SequenceNumber,
    /// The round length changed within a round.
    RoundLength,
    /// The creator has made two votes in the round already.
    ThreeVotesInRound,
    /// A block is proposed by someone who is not the leader of the round, or not at its beginning.
    UnexpectedBlock,
    /// A child of a terminal block is proposed.
    ValueAfterTerminalBlock,
}

/// What has been decided about the round of a vote, and about the blocks that it builds on.
#[derive(Clone, Copy, Debug, PartialEq, Eq, Structural)]
pub struct RoundInfo {
    /// The leader of the vote's round.
    pub leader: ValidatorIndex,
    /// Whether the fork choice of the vote's panorama is a terminal block.
    pub terminal: bool,
}

/// The protocol state.
#[verifier::ext_equal]
pub ghost struct StateModel<C: ContextTypes> {
    pub params: Params,
    pub weights: Seq<u64>,
    pub units: crate::consensus::highway::graph::UnitOrder<C>,
    pub votes: Map<C::Hash, Rc<SignedWireVote<C>>>,
    pub faults: Map<ValidatorIndex, Fault<C>>,
    pub panorama: Seq<Observation<C::Hash>>,
    pub endorsements: Map<C::Hash, Map<ValidatorIndex, C::Signature>>,
}

/// The sum of all weights.
pub open spec fn total(weights: Seq<u64>) -> int
    decreases weights.len(),
{
    if weights.len() == 0 {
        0
    } else {
        total(weights.drop_last()) + weights.last()
    }
}

/// The sum of the weights of the validators that have endorsed.
pub open spec fn endorsing_weight<S>(weights: Seq<u64>, endorsers: Map<ValidatorIndex, S>) -> int
    decreases weights.len(),
{
    if weights.len() == 0 {
        0
    } else {
        endorsing_weight(weights.drop_last(), endorsers) + (if endorsers.contains_key(
            ValidatorIndex((weights.len() - 1) as u32),
        ) {
            weights.last() as int
        } else {
            0
        })
    }
}

/// The endorsements in the order of the validators.
pub open spec fn endorser_list<S>(n: int, endorsers: Map<ValidatorIndex, S>) -> Seq<(ValidatorIndex, S)>
    decreases n,
{
    if n <= 0 {
        Seq::empty()
    } else {
        let before = endorser_list(n - 1, endorsers);
        let idx = ValidatorIndex((n - 1) as u32);
        if endorsers.contains_key(idx) {
            before.push((idx, endorsers[idx]))
        } else {
            before
        }
    }
}

/// The endorsements with all of `more` put in, one after the other.
pub open spec fn with_endorsers<S>(endorsers: Map<ValidatorIndex, S>, more: Seq<(ValidatorIndex, S)>) -> Map<ValidatorIndex, S>
    decreases more.len(),
{
    if more.len() == 0 {
        endorsers
    } else {
        with_endorsers(endorsers, more.drop_last()).insert(more.last().0, more.last().1)
    }
}

impl<C: ContextTypes> StateModel<C> {
    /// The vote is part of the state.
    pub open spec fn has_vote(self, hash: C::Hash) -> bool {
        crate::consensus::highway::graph::units_of(self.units).contains_key(hash)
    }

    /// There is direct evidence against the validator.
    pub open spec fn has_evidence(self, idx: ValidatorIndex) -> bool {
        self.faults.contains_key(idx) && self.faults[idx] is Direct
    }

    /// The endorsements of a vote.
    pub open spec fn endorsers(self, hash: C::Hash) -> Map<ValidatorIndex, C::Signature> {
        if self.endorsements.contains_key(hash) {
            self.endorsements[hash]
        } else {
            Map::empty()
        }
    }

    /// Validators with more than half of the weight have endorsed the vote.
    pub open spec fn is_endorsed(self, hash: C::Hash) -> bool {
        endorsing_weight(self.weights, self.endorsers(hash)) > total(self.weights) / 2
    }

    /// The state after evidence was added.
    pub open spec fn with_evidence(self, evidence: Rc<Evidence<C>>) -> StateModel<C> {
        let idx = evidence.accused();
        if self.faults.contains_key(idx) && !(self.faults[idx] is Indirect) {
            self
        } else {
            StateModel {
                faults: self.faults.insert(idx, Fault::Direct(evidence)),
                panorama: self.panorama.update(idx.0 as int, Observation::Faulty),
                ..self
            }
        }
    }

    /// The state after a validator was marked as faulty.
    pub open spec fn with_faulty(self, idx: ValidatorIndex) -> StateModel<C> {
        if self.faults.contains_key(idx) {
            self
        } else {
            StateModel {
                faults: self.faults.insert(idx, Fault::Indirect),
                panorama: self.panorama.update(idx.0 as int, Observation::Faulty),
                ..self
            }
        }
    }

    /// The state after endorsements were added, unless there were enough already.
    pub open spec fn with_endorsements(self, e: Endorsements<C>) -> StateModel<C> {
        if self.is_endorsed(e.vote) {
            self
        } else {
            StateModel {
                endorsements: self.endorsements.insert(e.vote, with_endorsers(self.endorsers(e.vote), e.endorsers@)),
                ..self
            }
        }
    }

    /// The dependency on a validator's observation that is missing, if there is one.
    pub open spec fn missing_for(self, idx: int, obs: Observation<C::Hash>) -> Option<Dependency<C>> {
        match obs {
            Observation::Unseen => None,
            Observation::Faulty => if self.faults.contains_key(ValidatorIndex(idx as u32)) {
                None
            } else {
                Some(Dependency::Evidence(ValidatorIndex(idx as u32)))
            },
            Observation::Correct(h) => if self.has_vote(h) {
                None
            } else {
                Some(Dependency::Vote(h))
            },
        }
    }

    /// The first dependency of a panorama that is missing.
    pub open spec fn first_missing(self, panorama: Seq<Observation<C::Hash>>, from: int) -> Option<Dependency<C>>
        decreases panorama.len() - from,
    {
        if from < 0 || from >= panorama.len() {
            None
        } else {
            match self.missing_for(from, panorama[from]) {
                Some(d) => Some(d),
                None => self.first_missing(panorama, from + 1),
            }
        }
    }

    /// The first of the votes that is not endorsed.
    pub open spec fn first_unendorsed(self, hashes: Seq<C::Hash>, from: int) -> Option<C::Hash>
        decreases hashes.len() - from,
    {
        if from < 0 || from >= hashes.len() {
            None
        } else if !self.is_endorsed(hashes[from]) {
            Some(hashes[from])
        } else {
            self.first_unendorsed(hashes, from + 1)
        }
    }

    /// What is wrong with a vote on its own, if anything is.
    pub open spec fn vote_flaw(self, vote: SignedWireVote<C>) -> Option<VoteError> {
        let w = vote.wire_vote;
        let obs = w.panorama.observations@;
        if self.faults.contains_key(w.creator) && self.faults[w.creator] is Banned {
            Some(VoteError::Banned)
        } else if w.round_exp < self.params.spec_min_round_exp() {
            Some(VoteError::RoundLengthExpLessThanMinimum)
        } else if w.round_exp >= 64 {
            Some(VoteError::RoundLengthExpGreaterThanMaximum)
        } else if w.value is None && !(exists|i: int| 0 <= i < obs.len() && #[trigger] obs[i] is Correct) {
            Some(VoteError::MissingBlock)
        } else if obs.len() != self.weights.len() {
            Some(VoteError::PanoramaLength)
        } else if crate::consensus::highway::panorama::observed(obs, w.creator) is Faulty {
            Some(VoteError::FaultyCreator)
        } else {
            None
        }
    }

    /// The panorama cites a vote in the place of another creator.
    pub open spec fn misplaced(self, obs: Seq<Observation<C::Hash>>) -> bool {
        let g = crate::consensus::highway::graph::units_of(self.units);
        exists|i: int|
            0 <= i < obs.len() && (#[trigger] obs[i] matches Observation::Correct(h) && g.contains_key(h) && g[h].creator.0 != i)
    }

    /// The panorama cites a vote that is later than `timestamp`.
    pub open spec fn cites_later(self, obs: Seq<Observation<C::Hash>>, timestamp: Timestamp) -> bool {
        let g = crate::consensus::highway::graph::units_of(self.units);
        exists|i: int|
            0 <= i < obs.len() && (#[trigger] obs[i] matches Observation::Correct(h) && g.contains_key(h) && g[h].timestamp.0
                > timestamp.0)
    }

    /// What is wrong with a vote whose dependencies are all there, if anything is.
    pub open spec fn placed_vote_flaw(self, vote: SignedWireVote<C>, info: RoundInfo) -> Option<VoteError> {
        let g = crate::consensus::highway::graph::units_of(self.units);
        let w = vote.wire_vote;
        let obs = w.panorama.observations@;
        let prev = crate::consensus::highway::panorama::observed(obs, w.creator).spec_correct();
        let this_round = crate::consensus::highway::unit::round_start(w.timestamp, w.round_exp);
        if self.misplaced(obs) {
            Some(VoteError::PanoramaIndex)
        } else if self.cites_later(obs, w.timestamp) {
            Some(VoteError::Timestamps)
        } else if w.seq_number != (match prev {
            Some(p) => g[p].seq_number + 1,
            None => 0,
        }) {
            Some(VoteError::SequenceNumber)
        } else if prev matches Some(p) && g[p].round_exp != w.round_exp && (crate::consensus::highway::unit::round_start(
            g[p].timestamp,
            larger(g[p].round_exp, w.round_exp),
        ) == crate::consensus::highway::unit::round_start(w.timestamp, larger(g[p].round_exp, w.round_exp))) {
            Some(VoteError::RoundLength)
        } else if prev matches Some(p) && (crate::consensus::highway::unit::previous_of(&*g[p]) matches Some(p2)
            && crate::consensus::highway::unit::round_start(g[p2].timestamp, g[p2].round_exp) == this_round) {
            Some(VoteError::ThreeVotesInRound)
        } else if w.value is Some && ((prev matches Some(p) && crate::consensus::highway::unit::round_start(
            g[p].timestamp,
            g[p].round_exp,
        ) == this_round) || w.timestamp.0 != this_round || info.leader != w.creator) {
            Some(VoteError::UnexpectedBlock)
        } else if w.value is Some && info.terminal {
            Some(VoteError::ValueAfterTerminalBlock)
        } else {
            None
        }
    }

    /// The vote can become part of the state.
    pub open spec fn vote_fits(self, vote: SignedWireVote<C>) -> bool {
        let g = crate::consensus::highway::graph::units_of(self.units);
        let w = vote.wire_vote;
        let obs = w.panorama.observations@;
        &&& w.creator.0 < self.weights.len()
        &&& obs.len() == self.weights.len()
        &&& w.round_exp < 64
        &&& forall|i: int| 0 <= i < obs.len() ==> (#[trigger] obs[i] matches Observation::Correct(h) ==> g.contains_key(h)
            && g[h].creator.0 == i)
        &&& match crate::consensus::highway::panorama::observed(obs, w.creator) {
            Observation::Correct(p) => g[p].seq_number + 1 == w.seq_number,
            Observation::Unseen => w.seq_number == 0,
            Observation::Faulty => false,
        }
    }

    /// The state is what the vote `vote`, whose hash is `hash`, makes of `pre`.
    pub open spec fn is_with_vote(self, pre: StateModel<C>, hash: C::Hash, vote: Rc<SignedWireVote<C>>, unit: Rc<Unit<C>>) -> bool {
        let g = crate::consensus::highway::graph::units_of(pre.units);
        let c = vote.wire_vote.creator;
        let known = pre.panorama[c.0 as int];
        let claimed = crate::consensus::highway::panorama::observed(vote.wire_vote.panorama.observations@, c);
        &&& self.params == pre.params
        &&& self.weights == pre.weights
        &&& self.endorsements == pre.endorsements
        &&& self.units == pre.units.push((hash, unit))
        &&& self.votes == pre.votes.insert(hash, vote)
        &&& if known is Faulty {
            self.faults == pre.faults && self.panorama == pre.panorama
        } else if known == claimed {
            self.faults == pre.faults && self.panorama == pre.panorama.update(c.0 as int, Observation::Correct(hash))
        } else {
            // The creator has another vote with the same sequence number.
            &&& self.panorama == pre.panorama.update(c.0 as int, Observation::Faulty)
            &&& known matches Observation::Correct(latest) && (crate::consensus::highway::unit::ancestor(
                g,
                latest,
                vote.wire_vote.seq_number as int,
            ) matches Some(other) && equivocation(self.faults, pre.faults, c, pre.votes[other], vote))
        }
    }

    /// Unless its creator is known to be faulty, the unit stands in the swimlane that ends with the
    /// creator's latest one.
    pub open spec fn in_lane(self, h: C::Hash) -> bool {
        let g = crate::consensus::highway::graph::units_of(self.units);
        match self.panorama[g[h].creator.0 as int] {
            Observation::Faulty => true,
            Observation::Unseen => false,
            Observation::Correct(l) => crate::consensus::highway::unit::ancestor(g, l, g[h].seq_number as int) == Some(h),
        }
    }
}

/// Evidence for a fault accuses the validator.
pub open spec fn fault_of<C: ContextTypes>(fault: Fault<C>, idx: ValidatorIndex) -> bool {
    fault matches Fault::Direct(evidence) ==> evidence.accused() == idx
}

impl<C: Context> StateModel<C> {
    /// The parts of the state agree with each other: the votes are those of the units and stand under
    /// their own hashes, those seen as faulty are those with a fault, evidence stands under the
    /// validator that it accuses, and the votes of everyone else form one swimlane.
    pub open spec fn consistent(self) -> bool {
        let g = crate::consensus::highway::graph::units_of(self.units);
        let n = self.weights.len() as int;
        &&& crate::consensus::highway::graph::graph_wf(self.units, n)
        &&& n <= u32::MAX
        &&& total(self.weights) <= u64::MAX
        &&& self.panorama.len() == n
        &&& forall|h: C::Hash| #[trigger] self.votes.contains_key(h) == g.contains_key(h)
        &&& forall|idx: ValidatorIndex| #[trigger] self.faults.contains_key(idx) ==> idx.0 < n
        &&& forall|i: int| 0 <= i < n ==> ((#[trigger] self.panorama[i] is Faulty) == self.faults.contains_key(ValidatorIndex(i as u32)))
        &&& forall|i: int| 0 <= i < n ==> (#[trigger] self.panorama[i] matches Observation::Correct(h) ==> g.contains_key(h)
            && g[h].creator.0 == i)
        &&& forall|h: C::Hash| #[trigger] g.contains_key(h) ==> self.in_lane(h)
        &&& forall|h: C::Hash| #[trigger] g.contains_key(h) ==> self.votes[h].wire_vote.creator == g[h].creator
            && self.votes[h].wire_vote.seq_number == g[h].seq_number
        &&& forall|h: C::Hash| #[trigger] self.votes.contains_key(h) ==> C::vote_hash(self.votes[h].wire_vote@) == h
        &&& forall|idx: ValidatorIndex| #[trigger] self.faults.contains_key(idx) ==> fault_of(self.faults[idx], idx)
    }
}

/// Direct evidence of the two votes was added against the validator.
pub open spec fn equivocation<C: ContextTypes>(
    faults: Map<ValidatorIndex, Fault<C>>,
    before: Map<ValidatorIndex, Fault<C>>,
    idx: ValidatorIndex,
    vote0: Rc<SignedWireVote<C>>,
    vote1: Rc<SignedWireVote<C>>,
) -> bool {
    &&& faults.contains_key(idx)
    &&& faults[idx] matches Fault::Direct(evidence) && *evidence == Evidence::Equivocation(vote0, vote1)
    &&& faults == before.insert(idx, faults[idx])
}

/// The larger of two round exponents.
pub open spec fn larger(a: u8, b: u8) -> u8 {
    if a >= b {
        a
    } else {
        b
    }
}

/// A passive instance of the Highway protocol's state.
pub struct State<C: ContextTypes> {
    params: Params,
    /// The validators' voting weights.
    weights: Vec<u64>,
    /// All units imported so far.
    graph: UnitGraph<C>,
    /// The votes that the units were made of.
    votes: VecMap<C::Hash, Rc<SignedWireVote<C>>>,
    /// Evidence to prove a validator malicious, by index, or the reason for another fault.
    faults: VecMap<ValidatorIndex, Fault<C>>,
    /// The full panorama, corresponding to the complete protocol state.
    panorama: Panorama<C>,
    /// The endorsements, by vote and validator.
    endorsements: VecMap<C::Hash, VecMap<ValidatorIndex, C::Signature>>,
}

impl<C: ContextTypes> View for State<C> {
    type V = StateModel<C>;

    closed spec fn view(&self) -> StateModel<C> {
        StateModel {
            params: self.params,
            weights: self.weights@,
            units: self.graph@,
            votes: self.votes@,
            faults: self.faults@,
            panorama: self.panorama.observations@,
            endorsements: self.endorsements@.map_values(|e: VecMap<ValidatorIndex, C::Signature>| e@),
        }
    }
}

/// What a prefix adds up to is no more than the whole.
proof fn lemma_total_prefix(weights: Seq<u64>, n: int)
    requires
        0 <= n <= weights.len(),
    ensures
        0 <= total(weights.take(n)) <= total(weights),
    decreases weights.len(),
{
    if n == weights.len() {
        assert(weights.take(n) =~= weights);
        if n > 0 {
            lemma_total_prefix(weights.drop_last(), n - 1);
        }
    } else {
        lemma_total_prefix(weights.drop_last(), n);
        assert(weights.drop_last().take(n) =~= weights.take(n));
    }
}

/// The weight of those who endorse is no more than all weight.
proof fn lemma_endorsing_weight<S>(weights: Seq<u64>, endorsers: Map<ValidatorIndex, S>)
    ensures
        0 <= endorsing_weight(weights, endorsers) <= total(weights),
    decreases weights.len(),
{
    if weights.len() > 0 {
        lemma_endorsing_weight(weights.drop_last(), endorsers);
    }
}

impl<C: Context> State<C> {
    /// The parts are well-formed and agree with each other.
    pub closed spec fn wf(&self) -> bool {
        &&& self.graph.wf()
        &&& self.graph.validator_count() == self.weights@.len()
        &&& self.votes.wf()
        &&& self.faults.wf()
        &&& self.endorsements.wf()
        &&& forall|h: C::Hash| #[trigger] self.endorsements@.contains_key(h) ==> self.endorsements@[h].wf()
        &&& self@.consistent()
    }

    /// What holds of every protocol state.
    pub proof fn lemma_consistent(&self)
        requires
            self.wf(),
        ensures
            self@.consistent(),
    {
    }

    /// Creates the state of a protocol instance without votes; the validators in `banned` are
    /// faulty from the beginning.
    pub fn new(weights: Vec<u64>, params: Params, banned: &Vec<ValidatorIndex>) -> (r: State<C>)
        requires
            weights@.len() <= u32::MAX,
            total(weights@) <= u64::MAX,
            forall|i: int| 0 <= i < banned@.len() ==> (#[trigger] banned@[i]).0 < weights@.len(),
        ensures
            r.wf(),
            r@.params == params,
            r@.weights == weights@,
            r@.units == crate::consensus::highway::graph::UnitOrder::<C>::empty(),
            r@.votes == Map::<C::Hash, Rc<SignedWireVote<C>>>::empty(),
            r@.endorsements == Map::<C::Hash, Map<ValidatorIndex, C::Signature>>::empty(),
            forall|idx: ValidatorIndex| #[trigger] r@.faults.contains_key(idx) == banned@.contains(idx),
            forall|idx: ValidatorIndex| #[trigger] r@.faults.contains_key(idx) ==> r@.faults[idx] is Banned,
    {
        let n = weights.len();
        let mut faults: VecMap<ValidatorIndex, Fault<C>> = VecMap::new();
        let mut panorama: Panorama<C> = Panorama::new(n);
        let mut i: usize = 0;
        while i < banned.len()
            invariant
                i <= banned@.len(),
                n <= u32::MAX,
                forall|i: int| 0 <= i < banned@.len() ==> (#[trigger] banned@[i]).0 < n,
                faults.wf(),
                panorama.observations@.len() == n,
                forall|idx: ValidatorIndex| #[trigger] faults@.contains_key(idx) == banned@.take(i as int).contains(idx),
                forall|idx: ValidatorIndex| #[trigger] faults@.contains_key(idx) ==> faults@[idx] is Banned,
                forall|idx: ValidatorIndex| #[trigger] faults@.contains_key(idx) ==> idx.0 < n,
                forall|j: int| 0 <= j < n ==> ((#[trigger] panorama.observations@[j] is Faulty) == faults@.contains_key(ValidatorIndex(j as u32))),
                forall|j: int| 0 <= j < n ==> !(#[trigger] panorama.observations@[j] is Correct),
            decreases banned@.len() - i,
        {
            let idx = banned[i];
            let ghost prefix = banned@.take(i as int);
            let ghost before = faults@;
            let _ = faults.insert(idx, Fault::Banned);
            panorama.observations[idx.0 as usize] = Observation::Faulty;
            proof {
                let next = banned@.take(i + 1);
                assert(next =~= prefix.push(idx));
                assert forall|x: ValidatorIndex| #[trigger] faults@.contains_key(x) == next.contains(x) by {
                    assert(before.contains_key(x) == prefix.contains(x));
                    if prefix.contains(x) {
                        let k = prefix.index_of(x);
                        assert(next[k] == x);
                    }
                    if x == idx {
                        assert(next[i as int] == x);
                    }
                    if next.contains(x) && x != idx {
                        let k = next.index_of(x);
                        assert(prefix[k] == x);
                    }
                }
            }
            i += 1;
        }
        assert(banned@.take(banned@.len() as int) =~= banned@);
        let r = State {
            params,
            weights,
            graph: UnitGraph::new(n),
            votes: VecMap::new(),
            faults,
            panorama,
            endorsements: VecMap::new(),
        };
        proof {
            assert(r@.endorsements =~= Map::<C::Hash, Map<ValidatorIndex, C::Signature>>::empty());
            assert(crate::consensus::highway::graph::units_of(r@.units) =~= Map::<C::Hash, Rc<Unit<C>>>::empty());
        }
        r
    }

    /// Returns the protocol parameters.
    pub fn params(&self) -> (r: &Params)
        ensures
            *r == self@.params,
    {
        &self.params
    }

    /// Returns the number of validators.
    pub fn validator_count(&self) -> (r: usize)
        ensures
            r == self@.weights.len(),
    {
        self.weights.len()
    }

    /// Returns the graph of units.
    pub fn graph(&self) -> (r: &UnitGraph<C>)
        requires
            self.wf(),
        ensures
            r@ == self@.units,
            r.wf(),
            r.validator_count() == self@.weights.len(),
    {
        &self.graph
    }

    /// Returns whether the vote is part of the state.
    pub fn has_vote(&self, hash: &C::Hash) -> (r: bool)
        requires
            self.wf(),
        ensures
            r == self@.has_vote(*hash),
    {
        self.graph.has_unit(hash)
    }

    /// Returns the vote with the given hash, if it is part of the state.
    pub fn wire_vote(&self, hash: &C::Hash) -> (r: Option<Rc<SignedWireVote<C>>>)
        requires
            self.wf(),
        ensures
            r == if self@.has_vote(*hash) {
                Some(self@.votes[*hash])
            } else {
                None
            },
    {
        proof {
            assert(self@.votes.contains_key(*hash) == self@.has_vote(*hash));
        }
        match self.votes.get(hash) {
            Some(vote) => Some(vote.clone()),
            None => None,
        }
    }

    /// Returns whether the validator is known to be faulty.
    pub fn is_faulty(&self, idx: ValidatorIndex) -> (r: bool)
        requires
            self.wf(),
        ensures
            r == self@.faults.contains_key(idx),
    {
        self.faults.contains_key(&idx)
    }

    /// Returns the fault of a validator, if it is known to be faulty.
    pub fn opt_fault(&self, idx: ValidatorIndex) -> (r: Option<&Fault<C>>)
        requires
            self.wf(),
        ensures
            match r {
                Some(fault) => self@.faults.contains_key(idx) && *fault == self@.faults[idx],
                None => !self@.faults.contains_key(idx),
            },
    {
        self.faults.get(&idx)
    }

    /// Returns the evidence against a validator, if there is any.
    pub fn opt_evidence(&self, idx: ValidatorIndex) -> (r: Option<Rc<Evidence<C>>>)
        requires
            self.wf(),
        ensures
            match r {
                Some(evidence) => self@.has_evidence(idx) && self@.faults[idx] == Fault::Direct(evidence),
                None => !self@.has_evidence(idx),
            },
    {
        match self.faults.get(&idx) {
            Some(Fault::Direct(evidence)) => Some(evidence.clone()),
            _ => None,
        }
    }

    /// Returns whether there is direct evidence against the validator.
    pub fn has_evidence(&self, idx: ValidatorIndex) -> (r: bool)
        requires
            self.wf(),
        ensures
            r == self@.has_evidence(idx),
    {
        self.opt_evidence(idx).is_some()
    }

    /// Marks the given validator as faulty, unless it is already banned or known to be faulty.
    pub fn mark_faulty(&mut self, idx: ValidatorIndex)
        requires
            old(self).wf(),
            idx.0 < old(self)@.weights.len(),
        ensures
            final(self).wf(),
            final(self)@ == old(self)@.with_faulty(idx),
    {
        if !self.faults.contains_key(&idx) {
            let _ = self.faults.insert(idx, Fault::Indirect);
            self.panorama.observations[idx.0 as usize] = Observation::Faulty;
            proof {
                self.lemma_fault_noted(*old(self), idx);
            }
        }
    }

    /// Noting a fault leaves the state well-formed.
    proof fn lemma_fault_noted(&self, before: State<C>, idx: ValidatorIndex)
        requires
            before.wf(),
            idx.0 < before@.weights.len(),
            self.params == before.params,
            self.weights == before.weights,
            self.graph == before.graph,
            self.votes == before.votes,
            self.endorsements == before.endorsements,
            self.faults.wf(),
            self.faults@.contains_key(idx),
            self.faults@ == before.faults@.insert(idx, self.faults@[idx]),
            fault_of(self.faults@[idx], idx),
            self.panorama.observations@ == before.panorama.observations@.update(idx.0 as int, Observation::Faulty),
        ensures
            self.wf(),
    {
        let g = crate::consensus::highway::graph::units_of(self@.units);
        assert forall|h: C::Hash| #[trigger] g.contains_key(h) implies self@.in_lane(h) by {
            crate::consensus::highway::graph::lemma_position(self@.units, self@.weights.len() as int, h);
            assert(before@.in_lane(h));
        }
        assert forall|x: ValidatorIndex| #[trigger] self@.faults.contains_key(x) implies x.0 < self@.weights.len() && fault_of(
            self@.faults[x],
            x,
        ) by {
            if x != idx {
                assert(before@.faults.contains_key(x));
            }
        }
        assert forall|i: int| 0 <= i < self@.weights.len() implies ((#[trigger] self@.panorama[i] is Faulty) == self@.faults.contains_key(ValidatorIndex(i as u32))) by {
            if i != idx.0 {
                assert(self@.panorama[i] == before@.panorama[i]);
            }
        }
        assert forall|i: int| 0 <= i < self@.weights.len() implies (#[trigger] self@.panorama[i] matches Observation::Correct(h) ==> g.contains_key(h)
            && g[h].creator.0 == i) by {
            if i != idx.0 {
                assert(self@.panorama[i] == before@.panorama[i]);
            }
        }
    }

    /// Adds evidence against a validator; returns `false` if there was some already, or the
    /// validator is banned.
    pub fn add_evidence(&mut self, evidence: Rc<Evidence<C>>) -> (r: bool)
        requires
            old(self).wf(),
            evidence.accused().0 < old(self)@.weights.len(),
        ensures
            final(self).wf(),
            final(self)@ == old(self)@.with_evidence(evidence),
            r == (!old(self)@.faults.contains_key(evidence.accused()) || old(self)@.faults[evidence.accused()] is Indirect),
    {
        let idx = evidence.perpetrator();
        match self.faults.get(&idx) {
            Some(Fault::Banned) | Some(Fault::Direct(_)) => {
                return false;
            },
            None | Some(Fault::Indirect) => {},
        }
        let _ = self.faults.insert(idx, Fault::Direct(evidence));
        self.panorama.observations[idx.0 as usize] = Observation::Faulty;
        proof {
            self.lemma_fault_noted(*old(self), idx);
        }
        true
    }

    /// Returns the sum of all weights.
    fn total_weight(&self) -> (r: u64)
        requires
            total(self.weights@) <= u64::MAX,
        ensures
            r == total(self.weights@),
    {
        let mut sum: u64 = 0;
        let mut i: usize = 0;
        assert(self.weights@.take(0) =~= Seq::empty());
        while i < self.weights.len()
            invariant
                i <= self.weights@.len(),
                total(self.weights@) <= u64::MAX,
                sum == total(self.weights@.take(i as int)),
            decreases self.weights@.len() - i,
        {
            proof {
                assert(self.weights@.take(i + 1).drop_last() =~= self.weights@.take(i as int));
                lemma_total_prefix(self.weights@, i + 1);
            }
            sum = sum + self.weights[i];
            i += 1;
        }
        assert(self.weights@.take(self.weights@.len() as int) =~= self.weights@);
        sum
    }

    /// Returns whether validators with more than half of the weight have endorsed the vote.
    pub fn is_endorsed(&self, hash: &C::Hash) -> (r: bool)
        requires
            self.wf(),
        ensures
            r == self@.is_endorsed(*hash),
    {
        let ghost all = self@.endorsers(*hash);
        let threshold = self.total_weight() / 2;
        match self.endorsements.get(hash) {
            None => {
                proof {
                    lemma_nobody_endorses(self@.weights, all);
                }
                false
            },
            Some(endorsers) => {
                let mut sum: u64 = 0;
                let mut i: usize = 0;
                assert(self.weights@.take(0) =~= Seq::empty());
                while i < self.weights.len()
                    invariant
                        i <= self.weights@.len(),
                        self.weights@.len() <= u32::MAX,
                        endorsers.wf(),
                        endorsers@ == all,
                        total(self.weights@) <= u64::MAX,
                        sum == endorsing_weight(self.weights@.take(i as int), all),
                    decreases self.weights@.len() - i,
                {
                    proof {
                        assert(self.weights@.take(i + 1).drop_last() =~= self.weights@.take(i as int));
                        lemma_endorsing_weight(self.weights@.take(i + 1), all);
                        lemma_total_prefix(self.weights@, i + 1);
                        lemma_endorsing_weight(self.weights@.take(i as int), all);
                    }
                    if endorsers.contains_key(&ValidatorIndex(i as u32)) {
                        sum = sum + self.weights[i];
                    }
                    i += 1;
                }
                assert(self.weights@.take(self.weights@.len() as int) =~= self.weights@);
                sum > threshold
            },
        }
    }

    /// Returns whether all of the given endorsements are known.
    pub fn has_all_endorsements(&self, e: &Endorsements<C>) -> (r: bool)
        requires
            self.wf(),
        ensures
            r == forall|i: int| 0 <= i < e.endorsers@.len() ==> self@.endorsers(e.vote).contains_key((#[trigger] e.endorsers@[i]).0),
    {
        match self.endorsements.get(&e.vote) {
            None => {
                if e.endorsers.len() > 0 {
                    assert(!self@.endorsers(e.vote).contains_key(e.endorsers@[0].0));
                    false
                } else {
                    true
                }
            },
            Some(known) => {
                let mut i: usize = 0;
                while i < e.endorsers.len()
                    invariant
                        i <= e.endorsers@.len(),
                        known.wf(),
                        known@ == self@.endorsers(e.vote),
                        forall|j: int| 0 <= j < i ==> self@.endorsers(e.vote).contains_key((#[trigger] e.endorsers@[j]).0),
                    decreases e.endorsers@.len() - i,
                {
                    if !known.contains_key(&e.endorsers[i].0) {
                        assert(!self@.endorsers(e.vote).contains_key(e.endorsers@[i as int].0));
                        return false;
                    }
                    i += 1;
                }
                true
            },
        }
    }

    /// Returns the endorsements of a vote, if there are enough of them.
    pub fn opt_endorsements(&self, hash: &C::Hash) -> (r: Option<Endorsements<C>>)
        requires
            self.wf(),
        ensures
            match r {
                Some(e) => self@.is_endorsed(*hash) && e.vote == *hash && e.endorsers@ == endorser_list(
                    self@.weights.len() as int,
                    self@.endorsers(*hash),
                ),
                None => !self@.is_endorsed(*hash),
            },
    {
        if !self.is_endorsed(hash) {
            return None;
        }
        let ghost all = self@.endorsers(*hash);
        let mut endorsers: Vec<(ValidatorIndex, C::Signature)> = Vec::new();
        if let Some(known) = self.endorsements.get(hash) {
            let mut i: usize = 0;
            while i < self.weights.len()
                invariant
                    i <= self.weights@.len(),
                    self.weights@.len() <= u32::MAX,
                    known.wf(),
                    known@ == all,
                    endorsers@ == endorser_list(i as int, all),
                decreases self.weights@.len() - i,
            {
                let idx = ValidatorIndex(i as u32);
                if let Some(signature) = known.get(&idx) {
                    endorsers.push((idx, *signature));
                }
                i += 1;
            }
        } else {
            proof {
                lemma_nobody_endorses(self@.weights, all);
                lemma_total_prefix(self@.weights, 0);
            }
        }
        Some(Endorsements { vote: *hash, endorsers })
    }

    /// Adds endorsements of a vote, unless there are enough already.
    pub fn add_endorsements(&mut self, e: &Endorsements<C>)
        requires
            old(self).wf(),
        ensures
            final(self).wf(),
            final(self)@ == old(self)@.with_endorsements(*e),
    {
        if self.is_endorsed(&e.vote) {
            // We already have a sufficient number of endorsements.
            return;
        }
        let ghost before = self@.endorsers(e.vote);
        let mut endorsers: VecMap<ValidatorIndex, C::Signature> = match self.endorsements.remove(&e.vote) {
            Some(known) => known,
            None => VecMap::new(),
        };
        let mut i: usize = 0;
        assert(e.endorsers@.take(0) =~= Seq::empty());
        while i < e.endorsers.len()
            invariant
                i <= e.endorsers@.len(),
                endorsers.wf(),
                endorsers@ == with_endorsers(before, e.endorsers@.take(i as int)),
            decreases e.endorsers@.len() - i,
        {
            proof {
                let next = e.endorsers@.take(i + 1);
                assert(next.drop_last() =~= e.endorsers@.take(i as int));
                assert(next.last() == e.endorsers@[i as int]);
            }
            let (idx, signature) = e.endorsers[i];
            let _ = endorsers.insert(idx, signature);
            i += 1;
        }
        let _ = self.endorsements.insert(e.vote, endorsers);
        proof {
            assert(e.endorsers@.take(e.endorsers@.len() as int) =~= e.endorsers@);
            assert(self@.endorsements =~= old(self)@.with_endorsements(*e).endorsements);
        }
    }

    /// Returns the first of the votes that a vote takes as endorsed without enough endorsements
    /// being known.
    pub fn needs_endorsements(&self, vote: &SignedWireVote<C>) -> (r: Option<C::Hash>)
        requires
            self.wf(),
        ensures
            r == self@.first_unendorsed(vote.wire_vote.endorsed@, 0),
    {
        let mut i: usize = 0;
        while i < vote.wire_vote.endorsed.len()
            invariant
                i <= vote.wire_vote.endorsed@.len(),
                self.wf(),
                self@.first_unendorsed(vote.wire_vote.endorsed@, 0) == self@.first_unendorsed(vote.wire_vote.endorsed@, i as int),
            decreases vote.wire_vote.endorsed@.len() - i,
        {
            let hash = vote.wire_vote.endorsed[i];
            if !self.is_endorsed(&hash) {
                return Some(hash);
            }
            i += 1;
        }
        None
    }

    /// Returns the first dependency of a panorama that is missing.
    pub fn missing_dependency(&self, panorama: &Panorama<C>) -> (r: Option<Dependency<C>>)
        requires
            self.wf(),
            panorama.observations@.len() <= u32::MAX,
        ensures
            r == self@.first_missing(panorama.observations@, 0),
    {
        let mut i: usize = 0;
        while i < panorama.observations.len()
            invariant
                i <= panorama.observations@.len(),
                panorama.observations@.len() <= u32::MAX,
                self.wf(),
                self@.first_missing(panorama.observations@, 0) == self@.first_missing(panorama.observations@, i as int),
            decreases panorama.observations@.len() - i,
        {
            match panorama.observations[i] {
                Observation::Unseen => {},
                Observation::Faulty => {
                    let idx = ValidatorIndex(i as u32);
                    if !self.is_faulty(idx) {
                        return Some(Dependency::Evidence(idx));
                    }
                },
                Observation::Correct(hash) => {
                    if !self.has_vote(&hash) {
                        return Some(Dependency::Vote(hash));
                    }
                },
            }
            i += 1;
        }
        None
    }

    /// Returns an error if the vote is invalid. This can be called even if the dependencies are
    /// not present yet.
    pub fn pre_validate_vote(&self, vote: &SignedWireVote<C>) -> (r: Result<(), VoteError>)
        requires
            self.wf(),
        ensures
            match r {
                Ok(()) => self@.vote_flaw(*vote) is None,
                Err(e) => self@.vote_flaw(*vote) == Some(e),
            },
    {
        let wvote = &vote.wire_vote;
        let creator = wvote.creator;
        if let Some(Fault::Banned) = self.faults.get(&creator) {
            return Err(VoteError::Banned);
        }
        if wvote.round_exp < self.params.min_round_exp() {
            return Err(VoteError::RoundLengthExpLessThanMinimum);
        }
        if wvote.round_exp >= 64 {
            return Err(VoteError::RoundLengthExpGreaterThanMaximum);
        }
        if wvote.value.is_none() && !wvote.panorama.has_correct() {
            return Err(VoteError::MissingBlock);
        }
        if wvote.panorama.len() != self.weights.len() {
            return Err(VoteError::PanoramaLength);
        }
        if wvote.panorama.get(creator).is_faulty() {
            return Err(VoteError::FaultyCreator);
        }
        Ok(())
    }

    /// Returns an error if the panorama cites a vote in the place of another creator, or a later
    /// vote.
    fn validate_citations(&self, panorama: &Panorama<C>, timestamp: Timestamp) -> (r: Result<(), VoteError>)
        requires
            self.wf(),
            panorama.observations@.len() == self@.weights.len(),
            forall|h: C::Hash| #[trigger] crate::consensus::highway::panorama::cites(panorama.observations@, h) ==> self@.has_vote(h),
        ensures
            match r {
                Ok(()) => !self@.misplaced(panorama.observations@) && !self@.cites_later(panorama.observations@, timestamp),
                Err(e) => if self@.misplaced(panorama.observations@) {
                    e == VoteError::PanoramaIndex
                } else {
                    e == VoteError::Timestamps && self@.cites_later(panorama.observations@, timestamp)
                },
            },
    {
        let ghost obs = panorama.observations@;
        let ghost g = crate::consensus::highway::graph::units_of(self@.units);
        let mut later = false;
        let mut i: usize = 0;
        while i < panorama.observations.len()
            invariant
                i <= obs.len(),
                obs == panorama.observations@,
                obs.len() == self@.weights.len(),
                g == crate::consensus::highway::graph::units_of(self@.units),
                self.wf(),
                forall|h: C::Hash| #[trigger] crate::consensus::highway::panorama::cites(obs, h) ==> self@.has_vote(h),
                forall|j: int| 0 <= j < i ==> (#[trigger] obs[j] matches Observation::Correct(h) ==> g[h].creator.0 == j),
                later == exists|j: int| 0 <= j < i && (#[trigger] obs[j] matches Observation::Correct(h) && g.contains_key(h) && g[h].timestamp.0 > timestamp.0),
            decreases obs.len() - i,
        {
            if let Observation::Correct(hash) = panorama.observations[i] {
                proof {
                    assert(obs[i as int] == Observation::Correct(hash));
                    assert(crate::consensus::highway::panorama::cites(obs, hash));
                    self.lemma_consistent();
                }
                let unit = self.graph.unit(&hash);
                if unit.creator.0 as usize != i {
                    return Err(VoteError::PanoramaIndex);
                }
                if unit.timestamp.0 > timestamp.0 {
                    later = true;
                }
            }
            i += 1;
        }
        if later {
            Err(VoteError::Timestamps)
        } else {
            Ok(())
        }
    }

    /// Returns an error if the vote is invalid. Must only be called once `pre_validate_vote`
    /// returned `Ok` and all dependencies have been added to the state.
    pub fn validate_vote(&self, vote: &SignedWireVote<C>, info: &RoundInfo) -> (r: Result<(), VoteError>)
        requires
            self.wf(),
            self@.vote_flaw(*vote) is None,
            self@.first_missing(vote.wire_vote.panorama.observations@, 0) is None,
        ensures
            match r {
                Ok(()) => self@.placed_vote_flaw(*vote, *info) is None,
                Err(e) => self@.placed_vote_flaw(*vote, *info) == Some(e),
            },
    {
        let wvote = &vote.wire_vote;
        let ghost obs = wvote.panorama.observations@;
        let ghost g = crate::consensus::highway::graph::units_of(self@.units);
        proof {
            lemma_nothing_missing(self@, obs);
        }
        match self.validate_citations(&wvote.panorama, wvote.timestamp) {
            Ok(()) => {},
            Err(e) => {
                return Err(e);
            },
        }
        let prev = wvote.panorama.get(wvote.creator).correct();
        proof {
            if prev is Some {
                assert(crate::consensus::highway::panorama::cites(obs, prev->0)) by {
                    assert(obs[wvote.creator.0 as int] == Observation::Correct(prev->0));
                }
                crate::consensus::highway::graph::lemma_position(self@.units, self@.weights.len() as int, prev->0);
            }
        }
        match prev {
            None => {
                if wvote.seq_number != 0 {
                    return Err(VoteError::SequenceNumber);
                }
            },
            Some(hash) => {
                let prev_unit = self.graph.unit(&hash);
                if prev_unit.seq_number == u64::MAX || wvote.seq_number != prev_unit.seq_number + 1 {
                    return Err(VoteError::SequenceNumber);
                }
            },
        }
        let r_id = crate::consensus::highway::unit::round_id(wvote.timestamp, wvote.round_exp);
        let mut second_in_round = false;
        if let Some(hash) = prev {
            let prev_unit = self.graph.unit(&hash);
            if prev_unit.round_exp != wvote.round_exp {
                // The round exponent must not change within a round: Even with respect to the
                // greater of the two exponents, a round boundary must be between the votes.
                let max_re = if prev_unit.round_exp >= wvote.round_exp {
                    prev_unit.round_exp
                } else {
                    wvote.round_exp
                };
                if crate::consensus::highway::unit::round_id(prev_unit.timestamp, max_re).0
                    == crate::consensus::highway::unit::round_id(wvote.timestamp, max_re).0 {
                    return Err(VoteError::RoundLength);
                }
            }
            // There can be at most two votes per round: proposal/confirmation and witness.
            proof {
                assert(crate::consensus::highway::unit::unit_linked(g, *g[hash]));
                assert(crate::consensus::highway::unit::skip_list_right(g, *g[hash]));
                if crate::consensus::highway::unit::previous_of(&*g[hash]) is Some {
                    let p2 = crate::consensus::highway::unit::previous_of(&*g[hash])->0;
                    crate::consensus::highway::unit::lemma_first_skip(g, hash);
                    crate::consensus::highway::graph::lemma_position(self@.units, self@.weights.len() as int, p2);
                }
            }
            if let Some(hash2) = prev_unit.previous() {
                let prev2_unit = self.graph.unit(&hash2);
                if prev2_unit.round_id().0 == r_id.0 {
                    return Err(VoteError::ThreeVotesInRound);
                }
            }
            second_in_round = prev_unit.round_id().0 == r_id.0;
        }
        if wvote.value.is_some() {
            // If this vote is a block, it must be the first vote in this round, its timestamp must
            // match the round ID, and the creator must be the round leader.
            if second_in_round || wvote.timestamp.0 != r_id.0 || info.leader != wvote.creator {
                return Err(VoteError::UnexpectedBlock);
            }
            // It's not allowed to create a child block of a terminal block.
            if info.terminal {
                return Err(VoteError::ValueAfterTerminalBlock);
            }
        }
        Ok(())
    }

    /// Adds the vote to the protocol state.
    ///
    /// The vote must be valid, and its dependencies satisfied. `fork_choice` is the fork choice of
    /// its panorama, which a vote without a value votes for.
    pub fn add_valid_vote(&mut self, vote: Rc<SignedWireVote<C>>, fork_choice: Option<C::Hash>) -> (r: Rc<Unit<C>>)
        requires
            old(self).wf(),
            old(self)@.vote_fits(*vote),
            !old(self)@.has_vote(C::vote_hash(vote.wire_vote@)),
            vote.wire_vote.value is None ==> fork_choice is Some,
        ensures
            final(self).wf(),
            r.is_of(crate::consensus::highway::graph::units_of(old(self)@.units), *vote, fork_choice),
            final(self)@.is_with_vote(old(self)@, C::vote_hash(vote.wire_vote@), vote, r),
    {
        let ghost pre = self@;
        let ghost g = crate::consensus::highway::graph::units_of(pre.units);
        let ghost n = pre.weights.len() as int;
        let hash = vote.hash();
        let creator = vote.wire_vote.creator;
        let ghost obs = vote.wire_vote.panorama.observations@;
        proof {
            if let Observation::Correct(p) = crate::consensus::highway::panorama::observed(obs, creator) {
                assert(obs[creator.0 as int] == Observation::Correct(p));
            }
        }
        let (unit, _value) = Unit::new(&vote, fork_choice, self.graph.units());
        let unit = Rc::new(unit);
        let known = self.panorama.get(creator);
        let claimed = vote.wire_vote.panorama.get(creator);
        // Find out whether the creator has another vote with the same sequence number.
        let mut evidence: Option<Rc<Evidence<C>>> = None;
        if !known.is_faulty() && !known.same_observation(&claimed) {
            proof {
                assert(pre.panorama[creator.0 as int] == known);
                lemma_other_vote(pre, vote);
            }
            if let Observation::Correct(latest) = known {
                if let Some(other) = self.graph.find_in_swimlane(&latest, vote.wire_vote.seq_number) {
                    proof {
                        assert(crate::consensus::highway::unit::ancestor(g, latest, vote.wire_vote.seq_number as int) == Some(other));
                        crate::consensus::highway::unit::lemma_ancestor_is(g, latest, vote.wire_vote.seq_number as int);
                        assert(pre.votes.contains_key(other));
                    }
                    if let Some(vote0) = self.wire_vote(&other) {
                        evidence = Some(Rc::new(Evidence::Equivocation(vote0, vote.clone())));
                    }
                }
            }
        }
        self.graph.add(hash, unit.clone());
        let _ = self.votes.insert(hash, vote.clone());
        if !known.is_faulty() {
            match evidence {
                Some(ev) => {
                    let _ = self.faults.insert(creator, Fault::Direct(ev));
                    self.panorama.observations[creator.0 as usize] = Observation::Faulty;
                },
                None => {
                    self.panorama.observations[creator.0 as usize] = Observation::Correct(hash);
                },
            }
        }
        proof {
            lemma_vote_added(pre, self@, hash, vote, unit);
            assert(self@.endorsements =~= pre.endorsements);
        }
        unit
    }
}

/// In a panorama without missing dependencies, everything that is cited is there.
pub proof fn lemma_nothing_missing<C: ContextTypes>(m: StateModel<C>, obs: Seq<Observation<C::Hash>>)
    requires
        m.first_missing(obs, 0) is None,
    ensures
        forall|h: C::Hash| #[trigger] crate::consensus::highway::panorama::cites(obs, h) ==> m.has_vote(h),
{
    assert forall|h: C::Hash| #[trigger] crate::consensus::highway::panorama::cites(obs, h) implies m.has_vote(h) by {
        let i = choose|i: int| 0 <= i < obs.len() && #[trigger] obs[i] == Observation::Correct(h);
        lemma_none_missing_at(m, obs, 0, i);
    }
}

/// A vote that is valid, on its own and in its place, fits.
pub proof fn lemma_valid_vote_fits<C: ContextTypes>(m: StateModel<C>, vote: &SignedWireVote<C>, info: RoundInfo)
    requires
        m.vote_flaw(*vote) is None,
        m.first_missing(vote.wire_vote.panorama.observations@, 0) is None,
        m.placed_vote_flaw(*vote, info) is None,
        vote.wire_vote.creator.0 < m.weights.len(),
    ensures
        m.vote_fits(*vote),
{
    let g = crate::consensus::highway::graph::units_of(m.units);
    let obs = vote.wire_vote.panorama.observations@;
    lemma_nothing_missing(m, obs);
    assert forall|i: int| 0 <= i < obs.len() implies (#[trigger] obs[i] matches Observation::Correct(h) ==> g.contains_key(h)
        && g[h].creator.0 == i) by {
        if let Observation::Correct(h) = obs[i] {
            assert(crate::consensus::highway::panorama::cites(obs, h));
            assert(m.has_vote(h));
        }
    }
}

/// Where nothing is missing from `from` on, nothing is missing at `i`.
pub proof fn lemma_none_missing_at<C: ContextTypes>(m: StateModel<C>, obs: Seq<Observation<C::Hash>>, from: int, i: int)
    requires
        0 <= from <= i < obs.len(),
        m.first_missing(obs, from) is None,
    ensures
        m.missing_for(i, obs[i]) is None,
    decreases i - from,
{
    if from < i {
        lemma_none_missing_at(m, obs, from + 1, i);
    }
}

/// A vote that does not stand behind its creator's latest one has a counterpart with the same
/// sequence number.
proof fn lemma_other_vote<C: Context>(m: StateModel<C>, vote: Rc<SignedWireVote<C>>)
    requires
        m.consistent(),
        m.vote_fits(*vote),
        !(m.panorama[vote.wire_vote.creator.0 as int] is Faulty),
        m.panorama[vote.wire_vote.creator.0 as int] != crate::consensus::highway::panorama::observed(
            vote.wire_vote.panorama.observations@,
            vote.wire_vote.creator,
        ),
    ensures
        m.panorama[vote.wire_vote.creator.0 as int] matches Observation::Correct(latest) && m.has_vote(latest)
            && crate::consensus::highway::unit::ancestor(
            crate::consensus::highway::graph::units_of(m.units),
            latest,
            vote.wire_vote.seq_number as int,
        ) is Some,
{
    let g = crate::consensus::highway::graph::units_of(m.units);
    let c = vote.wire_vote.creator;
    let obs = vote.wire_vote.panorama.observations@;
    match crate::consensus::highway::panorama::observed(obs, c) {
        Observation::Correct(p) => {
            assert(obs[c.0 as int] == Observation::Correct(p));
            assert(m.in_lane(p));
            let latest = m.panorama[c.0 as int]->Correct_0;
            crate::consensus::highway::unit::lemma_ancestor_is(g, latest, g[p].seq_number as int);
            assert(g[latest].seq_number > g[p].seq_number);
            crate::consensus::highway::unit::lemma_ancestor_exists(g, latest, vote.wire_vote.seq_number as int);
        },
        Observation::Unseen => {
            let latest = m.panorama[c.0 as int]->Correct_0;
            crate::consensus::highway::unit::lemma_ancestor_exists(g, latest, 0);
        },
        Observation::Faulty => {},
    }
}

/// Adding a vote keeps the parts of the state in agreement.
proof fn lemma_vote_added<C: Context>(
    pre: StateModel<C>,
    post: StateModel<C>,
    hash: C::Hash,
    vote: Rc<SignedWireVote<C>>,
    unit: Rc<Unit<C>>,
)
    requires
        pre.consistent(),
        pre.vote_fits(*vote),
        !pre.has_vote(hash),
        hash == C::vote_hash(vote.wire_vote@),
        unit.panorama == vote.wire_vote.panorama,
        unit.creator == vote.wire_vote.creator,
        unit.seq_number == vote.wire_vote.seq_number,
        post.weights == pre.weights,
        post.units == pre.units.push((hash, unit)),
        post.votes == pre.votes.insert(hash, vote),
        crate::consensus::highway::graph::graph_wf(post.units, pre.weights.len() as int),
        crate::consensus::highway::graph::units_of(post.units) == crate::consensus::highway::graph::units_of(pre.units).insert(hash, unit),
        ({
            let c = vote.wire_vote.creator;
            let known = pre.panorama[c.0 as int];
            if known is Faulty {
                post.faults == pre.faults && post.panorama == pre.panorama
            } else if known == crate::consensus::highway::panorama::observed(vote.wire_vote.panorama.observations@, c) {
                post.faults == pre.faults && post.panorama == pre.panorama.update(c.0 as int, Observation::Correct(hash))
            } else {
                &&& post.faults.contains_key(c)
                &&& post.faults == pre.faults.insert(c, post.faults[c])
                &&& fault_of(post.faults[c], c)
                &&& post.panorama == pre.panorama.update(c.0 as int, Observation::Faulty)
            }
        }),
    ensures
        post.consistent(),
{
    let g = crate::consensus::highway::graph::units_of(pre.units);
    let g1 = crate::consensus::highway::graph::units_of(post.units);
    let n = pre.weights.len() as int;
    let c = vote.wire_vote.creator;
    let obs = vote.wire_vote.panorama.observations@;
    let known = pre.panorama[c.0 as int];
    let claimed = crate::consensus::highway::panorama::observed(obs, c);
    assert forall|i: int| 0 <= i < n implies ((#[trigger] post.panorama[i] is Faulty) == post.faults.contains_key(ValidatorIndex(i as u32))) by {
        assert(pre.panorama[i] is Faulty == pre.faults.contains_key(ValidatorIndex(i as u32)));
    }
    assert forall|i: int| 0 <= i < n implies (#[trigger] post.panorama[i] matches Observation::Correct(h) ==> g1.contains_key(h)
        && g1[h].creator.0 == i) by {
        assert(pre.panorama[i] == pre.panorama[i]);
    }
    assert forall|idx: ValidatorIndex| #[trigger] post.faults.contains_key(idx) implies idx.0 < n && fault_of(
        post.faults[idx],
        idx,
    ) by {
        if idx != c {
            assert(pre.faults.contains_key(idx));
        }
    }
    assert forall|h: C::Hash| #[trigger] post.votes.contains_key(h) == g1.contains_key(h) by {
        assert(pre.votes.contains_key(h) == g.contains_key(h));
    }
    assert forall|h: C::Hash| #[trigger] post.votes.contains_key(h) implies C::vote_hash(post.votes[h].wire_vote@) == h by {
        if h != hash {
            assert(pre.votes.contains_key(h));
        }
    }
    assert forall|h: C::Hash| #[trigger] g1.contains_key(h) implies post.votes[h].wire_vote.creator == g1[h].creator
        && post.votes[h].wire_vote.seq_number == g1[h].seq_number by {
        if h != hash {
            assert(g.contains_key(h));
        }
    }
    assert forall|h: C::Hash| #[trigger] g1.contains_key(h) implies post.in_lane(h) by {
        if h != hash {
            assert(g.contains_key(h));
            crate::consensus::highway::graph::lemma_position(pre.units, n, h);
            assert(pre.in_lane(h));
            let i = g[h].creator.0 as int;
            if let Observation::Correct(l) = pre.panorama[i] {
                crate::consensus::highway::unit::lemma_ancestor_kept(g, hash, unit, l, g[h].seq_number as int);
                if i == c.0 && !(known is Faulty) && known == claimed {
                    assert(obs[c.0 as int] == Observation::Correct(l));
                    crate::consensus::highway::unit::lemma_ancestor_is(g, l, g[h].seq_number as int);
                    assert(crate::consensus::highway::unit::unit_linked(g1, *g1[hash]));
                }
            }
        }
    }
}

/// A vote that is endorsed has endorsements.
pub proof fn lemma_endorsed_has_endorsers<C: ContextTypes>(m: StateModel<C>, hash: C::Hash)
    requires
        m.is_endorsed(hash),
    ensures
        m.endorsements.contains_key(hash),
{
    if !m.endorsements.contains_key(hash) {
        lemma_nobody_endorses(m.weights, m.endorsers(hash));
    }
}

/// Without endorsements there is no weight behind a vote.
proof fn lemma_nobody_endorses<S>(weights: Seq<u64>, endorsers: Map<ValidatorIndex, S>)
    requires
        endorsers == Map::<ValidatorIndex, S>::empty(),
    ensures
        endorsing_weight(weights, endorsers) == 0,
        total(weights) >= 0,
    decreases weights.len(),
{
    if weights.len() > 0 {
        lemma_nobody_endorses(weights.drop_last(), endorsers);
    }
}

} // verus!
