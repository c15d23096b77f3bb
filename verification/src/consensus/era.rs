//! Eras: the candidate blocks that wait in them, and their numbers.

use crate::block_validator::BlockLike;
use crate::keys::PublicKey;
use crate::types::{EraId, ProtoBlock};
use std::rc::Rc;
use vstd::prelude::*;
use vstd::string::StringExecFns;

verus! {

/// The number of eras between an auction and the era for which it is made.
pub const AUCTION_DELAY: u64 = 3;

/// The number of eras after which unbonded stakes are paid out.
pub const DEFAULT_UNBONDING_DELAY: u64 = 14;

/// The unbonding period, in number of eras. After this many eras, a former validator is allowed to
/// withdraw their stake, so their signature can't be trusted anymore.
///
/// A node keeps `2 * BONDED_ERAS` past eras around, because the oldest bonded era could still
/// receive blocks that refer to `BONDED_ERAS` before that.
pub const BONDED_ERAS: u64 = DEFAULT_UNBONDING_DELAY - AUCTION_DELAY;

/// A message of the consensus component.
pub enum ConsensusMessage {
    /// A protocol message, to be handled by the instance in the specified era.
    Protocol {
        era_id: EraId,
        payload: Vec<u8>,
    },
    /// A request for evidence against the specified validator, from any era that is still bonded
    /// in `era_id`.
    EvidenceRequest {
        era_id: EraId,
        pub_key: PublicKey,
    },
}

impl EraId {
    /// The first era that is still bonded in this one.
    pub open spec fn first_bonded(self) -> int {
        if self.0 >= BONDED_ERAS {
            self.0 - BONDED_ERAS
        } else {
            0
        }
    }

    /// The eras that are still bonded in this one, in order.
    pub open spec fn bonded(self) -> Seq<EraId> {
        Seq::new((self.0 - self.first_bonded() + 1) as nat, |i: int| EraId((self.first_bonded() + i) as u64))
    }

    /// Returns the message of this era with the given payload.
    pub fn message(self, payload: Vec<u8>) -> (r: ConsensusMessage)
        ensures
            r == (ConsensusMessage::Protocol { era_id: self, payload }),
    {
        ConsensusMessage::Protocol { era_id: self, payload }
    }

    /// Returns the next era.
    pub fn successor(self) -> (r: EraId)
        requires
            self.0 < u64::MAX,
        ensures
            r == EraId((self.0 + 1) as u64),
    {
        EraId(self.0 + 1)
    }

    /// Returns all eras that are still bonded in this one, in order.
    pub fn iter_bonded(&self) -> (r: Vec<EraId>)
        ensures
            r@ == self.bonded(),
    {
        let first = self.0.saturating_sub(BONDED_ERAS);
        let mut r: Vec<EraId> = Vec::new();
        let count = self.0 - first;
        let mut i: u64 = 0;
        while i < count
            invariant
                i <= count,
                count == self.0 - first,
                first == self.first_bonded(),
                r@ == self.bonded().take(i as int),
            decreases count - i,
        {
            r.push(EraId(first + i));
            assert(r@ =~= self.bonded().take(i + 1));
            i += 1;
        }
        r.push(*self);
        assert(r@ =~= self.bonded());
        r
    }

    /// Returns the current era minus `x`, or `None` if that would be less than `0`.
    pub fn checked_sub(&self, x: u64) -> (r: Option<EraId>)
        ensures
            r == if self.0 >= x {
                Some(EraId((self.0 - x) as u64))
            } else {
                None
            },
    {
        if self.0 >= x {
            Some(EraId(self.0 - x))
        } else {
            None
        }
    }

    /// Returns the text of this era's number.
    pub fn to_text(&self) -> (r: String)
        ensures
            r@ == seq!['e', 'r', 'a', ' '] + crate::text::decimal(self.0 as nat),
    {
        let mut text = String::from_str("era ");
        proof {
            reveal_strlit("era ");
            assert("era "@ =~= seq!['e', 'r', 'a', ' ']);
        }
        crate::text::append_decimal(&mut text, self.0);
        text
    }
}

/// The eras bonded in an era are those that are not later and not more than `BONDED_ERAS` earlier.
pub proof fn law_bonded(era: EraId, other: EraId)
    ensures
        era.bonded().contains(other) == (other.0 <= era.0 && other.0 + BONDED_ERAS >= era.0),
{
    if era.bonded().contains(other) {
        let i = era.bonded().index_of(other);
        assert(era.bonded()[i] == other);
    }
    if other.0 <= era.0 && other.0 + BONDED_ERAS >= era.0 {
        assert(era.bonded()[other.0 - era.first_bonded()] == other);
    }
}

/// A candidate for a block: a proposed block and the validators it accuses.
pub struct CandidateBlock {
    /// The proposed block.
    pub proto_block: Rc<ProtoBlock>,
    /// The validators that the proposer claims to be faulty.
    pub accusations: Rc<Vec<PublicKey>>,
}

impl CandidateBlock {
    /// Creates a new candidate block, wrapping a proto block and accusing the given validators.
    pub fn new(proto_block: Rc<ProtoBlock>, accusations: Rc<Vec<PublicKey>>) -> (r: CandidateBlock)
        ensures
            r.proto_block == proto_block,
            r.accusations == accusations,
    {
        CandidateBlock { proto_block, accusations }
    }
}

/// A candidate block waiting for validation and dependencies.
pub struct PendingCandidate {
    /// The candidate, to be passed into the consensus instance once dependencies are resolved.
    candidate: Rc<CandidateBlock>,
    /// Whether the proto block has been validated yet.
    validated: bool,
    /// A list of IDs of accused validators for which we are still missing evidence.
    missing_evidence: Vec<PublicKey>,
}

/// A candidate block waiting for validation and dependencies.
#[verifier::ext_equal]
pub ghost struct PendingModel {
    pub candidate: Rc<CandidateBlock>,
    pub validated: bool,
    pub missing: Seq<PublicKey>,
}

/// The other keys.
pub open spec fn is_not(key: PublicKey) -> spec_fn(PublicKey) -> bool {
    |k: PublicKey| k != key
}

impl PendingModel {
    /// Nothing is missing.
    pub open spec fn is_complete(self) -> bool {
        self.validated && self.missing.len() == 0
    }

    /// The candidate after evidence against a validator has come.
    pub open spec fn without(self, key: PublicKey) -> PendingModel {
        PendingModel { missing: self.missing.filter(is_not(key)), ..self }
    }

    /// The candidate after a proto block was found to be valid.
    pub open spec fn accepted(self, block: crate::types::ProtoBlockModel) -> PendingModel {
        if self.candidate.proto_block@ == block {
            PendingModel { validated: true, ..self }
        } else {
            self
        }
    }
}

impl View for PendingCandidate {
    type V = PendingModel;

    closed spec fn view(&self) -> PendingModel {
        PendingModel { candidate: self.candidate, validated: self.validated, missing: self.missing_evidence@ }
    }
}

impl PendingCandidate {
    /// Creates a candidate that has not been validated yet.
    pub fn new(candidate: Rc<CandidateBlock>, missing_evidence: Vec<PublicKey>) -> (r: PendingCandidate)
        ensures
            r@ == (PendingModel { candidate, validated: false, missing: missing_evidence@ }),
    {
        PendingCandidate { candidate, validated: false, missing_evidence }
    }

    /// Returns whether nothing is missing.
    pub fn is_complete(&self) -> (r: bool)
        ensures
            r == self@.is_complete(),
    {
        self.validated && self.missing_evidence.len() == 0
    }

    /// Notes that evidence against a validator has come.
    fn resolve(&mut self, key: &PublicKey)
        ensures
            final(self)@ == old(self)@.without(*key),
    {
        let ghost all = self.missing_evidence@;
        let ghost p = is_not(*key);
        let mut kept: Vec<PublicKey> = Vec::new();
        let mut i: usize = 0;
        assert(all.take(0).filter(p) =~= Seq::empty()) by {
            reveal(Seq::filter);
        }
        while i < self.missing_evidence.len()
            invariant
                i <= all.len(),
                all == self.missing_evidence@,
                p == is_not(*key),
                kept@ == all.take(i as int).filter(p),
                self.candidate == old(self).candidate,
                self.validated == old(self).validated,
            decreases all.len() - i,
        {
            let k = self.missing_evidence[i];
            proof {
                assert(all.take(i + 1) =~= all.take(i as int).push(k));
                all.take(i as int).lemma_filter_push(k, p);
            }
            if k != *key {
                kept.push(k);
            }
            i += 1;
        }
        assert(all.take(all.len() as int) =~= all);
        self.missing_evidence = kept;
    }
}

/// An era: its first block and the candidate blocks that wait in it.
pub struct Era {
    /// The height of this era's first block.
    start_height: u64,
    /// Pending candidate blocks, waiting for validation. The boolean is `true` if the proto block
    /// has been validated; the vector contains the list of accused validators missing evidence.
    candidates: Vec<PendingCandidate>,
}

/// An era.
#[verifier::ext_equal]
pub ghost struct EraModel {
    pub start_height: u64,
    pub candidates: Seq<PendingModel>,
}

/// The models of candidates.
pub open spec fn candidates_view(candidates: Seq<PendingCandidate>) -> Seq<PendingModel> {
    candidates.map_values(|c: PendingCandidate| c@)
}

/// The candidates of those that satisfy a predicate, in order.
pub open spec fn chosen(candidates: Seq<PendingModel>, p: spec_fn(PendingModel) -> bool) -> Seq<Rc<CandidateBlock>> {
    candidates.filter(p).map_values(|c: PendingModel| c.candidate)
}

/// Complete candidates.
pub open spec fn complete() -> spec_fn(PendingModel) -> bool {
    |c: PendingModel| c.is_complete()
}

/// Candidates for the given proto block.
pub open spec fn candidate_for(block: crate::types::ProtoBlockModel) -> spec_fn(PendingModel) -> bool {
    |c: PendingModel| c.candidate.proto_block@ == block
}

/// The other candidates.
pub open spec fn others(p: spec_fn(PendingModel) -> bool) -> spec_fn(PendingModel) -> bool {
    |c: PendingModel| !p(c)
}

impl EraModel {
    /// The candidates after evidence against a validator has come.
    pub open spec fn resolved(self, key: PublicKey) -> Seq<PendingModel> {
        self.candidates.map_values(|c: PendingModel| c.without(key))
    }

    /// The candidates after a proto block was found to be valid.
    pub open spec fn accepting(self, block: crate::types::ProtoBlockModel) -> Seq<PendingModel> {
        self.candidates.map_values(|c: PendingModel| c.accepted(block))
    }
}

impl View for Era {
    type V = EraModel;

    closed spec fn view(&self) -> EraModel {
        EraModel { start_height: self.start_height, candidates: candidates_view(self.candidates@) }
    }
}

impl Era {
    /// Creates an era without candidates.
    pub fn new(start_height: u64) -> (r: Era)
        ensures
            r@ == (EraModel { start_height, candidates: Seq::empty() }),
    {
        let r = Era { start_height, candidates: Vec::new() };
        assert(candidates_view(r.candidates@) =~= Seq::empty());
        r
    }

    /// Returns the height of this era's first block.
    pub fn start_height(&self) -> (r: u64)
        ensures
            r == self@.start_height,
    {
        self.start_height
    }

    /// Adds a new candidate block, together with the accusations for which we don't have evidence
    /// yet.
    pub fn add_candidate(&mut self, candidate: Rc<CandidateBlock>, missing_evidence: Vec<PublicKey>)
        ensures
            final(self)@ == (EraModel {
                candidates: old(self)@.candidates.push(
                    PendingModel { candidate, validated: false, missing: missing_evidence@ },
                ),
                ..old(self)@
            }),
    {
        let pending = PendingCandidate::new(candidate, missing_evidence);
        self.candidates.push(pending);
        assert(candidates_view(self.candidates@) =~= old(self)@.candidates.push(pending@));
    }

    /// Marks the dependencies of candidate blocks on evidence against validator `pub_key` as
    /// resolved and returns all candidates that have no missing dependencies left.
    pub fn resolve_evidence(&mut self, pub_key: &PublicKey) -> (r: Vec<Rc<CandidateBlock>>)
        ensures
            r@ == chosen(old(self)@.resolved(*pub_key), complete()),
            final(self)@ == (EraModel {
                candidates: old(self)@.resolved(*pub_key).filter(others(complete())),
                ..old(self)@
            }),
    {
        let ghost before = self@.candidates;
        let ghost goal = self@.resolved(*pub_key);
        let mut i: usize = 0;
        while i < self.candidates.len()
            invariant
                i <= self.candidates@.len(),
                self.candidates@.len() == before.len(),
                self.start_height == old(self).start_height,
                goal == before.map_values(|c: PendingModel| c.without(*pub_key)),
                forall|j: int| 0 <= j < i ==> (#[trigger] self.candidates@[j])@ == goal[j],
                forall|j: int| i <= j < before.len() ==> (#[trigger] self.candidates@[j])@ == before[j],
            decreases self.candidates@.len() - i,
        {
            self.candidates[i].resolve(pub_key);
            i += 1;
        }
        assert(candidates_view(self.candidates@) =~= goal);
        self.remove_complete_candidates()
    }

    /// Marks the dependencies of candidate blocks on the validity of the specified proto block as
    /// resolved and returns all candidates that have no missing dependencies left.
    pub fn accept_proto_block(&mut self, proto_block: &ProtoBlock) -> (r: Vec<Rc<CandidateBlock>>)
        ensures
            r@ == chosen(old(self)@.accepting(proto_block@), complete()),
            final(self)@ == (EraModel {
                candidates: old(self)@.accepting(proto_block@).filter(others(complete())),
                ..old(self)@
            }),
    {
        let ghost before = self@.candidates;
        let ghost goal = self@.accepting(proto_block@);
        let mut i: usize = 0;
        while i < self.candidates.len()
            invariant
                i <= self.candidates@.len(),
                self.candidates@.len() == before.len(),
                self.start_height == old(self).start_height,
                goal == before.map_values(|c: PendingModel| c.accepted(proto_block@)),
                forall|j: int| 0 <= j < i ==> (#[trigger] self.candidates@[j])@ == goal[j],
                forall|j: int| i <= j < before.len() ==> (#[trigger] self.candidates@[j])@ == before[j],
            decreases self.candidates@.len() - i,
        {
            if self.candidates[i].candidate.proto_block.same_block(proto_block) {
                self.candidates[i].validated = true;
            }
            i += 1;
        }
        assert(candidates_view(self.candidates@) =~= goal);
        self.remove_complete_candidates()
    }

    /// Removes and returns any candidate blocks depending on the validity of the specified proto
    /// block. If it is invalid, all those candidates are invalid.
    pub fn reject_proto_block(&mut self, proto_block: &ProtoBlock) -> (r: Vec<Rc<CandidateBlock>>)
        ensures
            r@ == chosen(old(self)@.candidates, candidate_for(proto_block@)),
            final(self)@ == (EraModel {
                candidates: old(self)@.candidates.filter(others(candidate_for(proto_block@))),
                ..old(self)@
            }),
    {
        let ghost p = candidate_for(proto_block@);
        let test = |pc: &PendingCandidate| -> (b: bool)
            ensures
                b == (pc@.candidate.proto_block@ == proto_block@),
            { pc.candidate.proto_block.same_block(proto_block) };
        self.take_out(test, Ghost(p))
    }

    /// Removes and returns all candidate blocks with no missing dependencies.
    pub fn remove_complete_candidates(&mut self) -> (r: Vec<Rc<CandidateBlock>>)
        ensures
            r@ == chosen(old(self)@.candidates, complete()),
            final(self)@ == (EraModel { candidates: old(self)@.candidates.filter(others(complete())), ..old(self)@ }),
    {
        let test = |pc: &PendingCandidate| -> (b: bool)
            ensures
                b == pc@.is_complete(),
            { pc.is_complete() };
        self.take_out(test, Ghost(complete()))
    }

    /// Removes and returns the candidates that `test` accepts.
    fn take_out<F: Fn(&PendingCandidate) -> bool>(&mut self, test: F, Ghost(p): Ghost<spec_fn(PendingModel) -> bool>) -> (r: Vec<
        Rc<CandidateBlock>,
    >)
        requires
            forall|pc: PendingCandidate| #[trigger] call_requires(test, (&pc,)),
            forall|pc: PendingCandidate, b: bool| #[trigger] call_ensures(test, (&pc,), b) ==> b == p(pc@),
        ensures
            r@ == chosen(old(self)@.candidates, p),
            final(self)@ == (EraModel { candidates: old(self)@.candidates.filter(others(p)), ..old(self)@ }),
    {
        let ghost all = self@.candidates;
        let ghost q = others(p);
        let mut source: Vec<PendingCandidate> = Vec::new();
        std::mem::swap(&mut source, &mut self.candidates);
        let mut kept: Vec<PendingCandidate> = Vec::new();
        let mut taken: Vec<Rc<CandidateBlock>> = Vec::new();
        let n = source.len();
        let mut i: usize = 0;
        proof {
            reveal(Seq::filter);
            assert(candidates_view(source@) =~= all.skip(0));
            assert(candidates_view(kept@) =~= all.take(0).filter(q));
            assert(taken@ =~= chosen(all.take(0), p));
        }
        while i < n
            invariant
                i <= n,
                n == all.len(),
                q == others(p),
                source@.len() == n - i,
                candidates_view(source@) == all.skip(i as int),
                candidates_view(kept@) == all.take(i as int).filter(q),
                taken@ == chosen(all.take(i as int), p),
                self.start_height == old(self).start_height,
                forall|pc: PendingCandidate| #[trigger] call_requires(test, (&pc,)),
                forall|pc: PendingCandidate, b: bool| #[trigger] call_ensures(test, (&pc,), b) ==> b == p(pc@),
            decreases n - i,
        {
            let ghost source_before = source@;
            let ghost kept_before = kept@;
            assert(candidates_view(source@)[0] == all[i as int]);
            let pc = source.remove(0);
            proof {
                assert(pc@ == all[i as int]);
                assert(candidates_view(source@) =~= candidates_view(source_before).skip(1));
                assert(all.skip(i as int).skip(1) =~= all.skip(i + 1));
                assert(all.take(i + 1) =~= all.take(i as int).push(pc@));
                all.take(i as int).lemma_filter_push(pc@, p);
                all.take(i as int).lemma_filter_push(pc@, q);
            }
            let out = test(&pc);
            if out {
                let ghost taken_before = taken@;
                taken.push(pc.candidate);
                assert(taken@ =~= chosen(all.take(i + 1), p));
            } else {
                kept.push(pc);
                assert(candidates_view(kept@) =~= candidates_view(kept_before).push(pc@));
            }
            i += 1;
        }
        assert(all.take(n as int) =~= all);
        self.candidates = kept;
        taken
    }
}

/// Once everything that a candidate waits for has come it is handed out, exactly once: no complete
/// candidate is left behind, and none is handed out that still misses something.
pub proof fn law_complete_candidates_leave(candidates: Seq<PendingModel>, c: PendingModel)
    requires
        candidates.contains(c),
    ensures
        c.is_complete() ==> chosen(candidates, complete()).contains(c.candidate) && !candidates.filter(others(complete())).contains(c),
        !c.is_complete() ==> candidates.filter(others(complete())).contains(c),
        chosen(candidates, complete()).len() + candidates.filter(others(complete())).len() == candidates.len(),
{
    broadcast use vstd::seq_lib::group_filter_ensures;

    let p = complete();
    let q = others(complete());
    if c.is_complete() {
        assert(candidates.filter(p).contains(c));
        let i = candidates.filter(p).index_of(c);
        assert(chosen(candidates, p)[i] == c.candidate);
        if candidates.filter(q).contains(c) {
            assert(q(c));
        }
    } else {
        assert(q(c));
    }
    lemma_partition_len(candidates, p);
}

/// A predicate and its opposite part a sequence in two.
proof fn lemma_partition_len(candidates: Seq<PendingModel>, p: spec_fn(PendingModel) -> bool)
    ensures
        candidates.filter(p).len() + candidates.filter(others(p)).len() == candidates.len(),
    decreases candidates.len(),
{
    reveal(Seq::filter);
    if candidates.len() > 0 {
        lemma_partition_len(candidates.drop_last(), p);
    }
}

} // verus!
