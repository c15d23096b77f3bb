//! The era supervisor keeps the eras, in each of which an instance of the consensus protocol runs,
//! and decides what events and the results of the protocol instances lead to.
//!
//! It tries to know as little as possible about the underlying consensus. The only thing it assumes
//! is the concept of era/epoch and that each era runs separate consensus instance. Most
//! importantly, it doesn't care about what messages it's forwarding.

use crate::bytes::{append_le_bytes, leading_le_u64};
use crate::chainspec::{Chainspec, HighwayConfig};
use crate::collections::VecMap;
use crate::consensus::era::{CandidateBlock, ConsensusMessage, Era, AUCTION_DELAY, BONDED_ERAS};
use crate::consensus::highway::state::Params;
use crate::consensus::BlockContext;
use crate::hash::{hash, BlockHash, Digest};
use crate::keys::PublicKey;
use crate::ordered::OrderedMap;
use crate::timestamp::{TimeDiff, Timestamp};
use crate::types::{BlockHeader, EraId, ProtoBlock, ProtocolVersion};
use crate::uint::U512;
use rand::rngs::StdRng;
use std::rc::Rc;
use vstd::prelude::*;

verus! {

/// The reward for a block.
pub const BLOCK_REWARD: u64 = 1_000_000_000_000;

/// A block that a consensus instance has finalized.
pub struct CpFinalizedBlock {
    /// The finalized value.
    pub value: Rc<CandidateBlock>,
    /// The timestamp at which this value was proposed.
    pub timestamp: Timestamp,
    /// The relative height in this instance of the protocol.
    pub height: u64,
    /// The rewards of the validators, if this block ends the era.
    pub rewards: Option<OrderedMap<PublicKey, u64>>,
    /// The proposer of this value.
    pub proposer: PublicKey,
}

/// What is told at the end of an era.
pub struct EraEnd {
    /// The set of equivocators.
    pub equivocators: Rc<Vec<PublicKey>>,
    /// Rewards for finalization of earlier blocks.
    pub rewards: OrderedMap<PublicKey, u64>,
}

/// A finalized block, to be executed.
pub struct FinalizedBlock {
    pub proto_block: Rc<ProtoBlock>,
    pub timestamp: Timestamp,
    pub era_end: Option<EraEnd>,
    pub era_id: EraId,
    pub height: u64,
    pub proposer: PublicKey,
}

/// What comes out of a call of a consensus instance.
pub enum ConsensusProtocolResult<I> {
    /// A message could not be understood.
    InvalidIncomingMessage(Vec<u8>, I),
    /// A message for all nodes.
    CreatedGossipMessage(Vec<u8>),
    /// A message for one node.
    CreatedTargetedMessage(Vec<u8>, I),
    /// The instance wants to be called at the given time.
    ScheduleTimer(Timestamp),
    /// Request deploys for a new block, whose timestamp will be the given one.
    CreateNewBlock {
        block_context: BlockContext,
    },
    /// A block was finalized.
    FinalizedBlock(CpFinalizedBlock),
    /// Request validation of the consensus value, contained in a message received from the given
    /// node.
    ValidateConsensusValue(I, Rc<CandidateBlock>),
    /// New direct evidence was added against the given validator.
    NewEvidence(PublicKey),
}

/// A call of a consensus instance, whose results are to be handed back.
pub enum ConsensusCall<I> {
    /// A message has come.
    HandleMessage {
        sender: I,
        payload: Vec<u8>,
        /// Accept nothing but evidence.
        evidence_only: bool,
    },
    /// A timer has fired.
    HandleTimer(Timestamp),
    /// A peer wants evidence against a validator.
    RequestEvidence {
        sender: I,
        pub_key: PublicKey,
    },
    /// A block is to be proposed.
    Propose {
        candidate: Rc<CandidateBlock>,
        block_context: BlockContext,
    },
    /// A candidate block has turned out to be valid or not.
    ResolveValidity {
        candidate: Rc<CandidateBlock>,
        valid: bool,
    },
}

/// All that a consensus instance for a new era is started with.
pub struct EraPlan {
    /// The ID of the instance.
    pub instance_id: Digest,
    /// The validators with their scaled weights.
    pub validators: Vec<(PublicKey, u64)>,
    /// The protocol parameters.
    pub params: Params,
    /// The fault tolerance threshold.
    pub ftt: u64,
    /// When to start voting, if this node is to vote.
    pub activate_at: Option<Timestamp>,
}

/// Something for the supervisor's surroundings to do, in order and one after the other.
pub enum Effect<I> {
    /// Call the consensus instance of an era, and hand back the results.
    CallConsensus {
        era_id: EraId,
        call: ConsensusCall<I>,
    },
    /// Go on with resolving evidence, by calling `resolve_evidence`.
    ResolveEvidence {
        era_id: EraId,
        last: EraId,
        pub_key: PublicKey,
    },
    /// Start the consensus instance of a new era, and hand back the results.
    StartEra {
        era_id: EraId,
        plan: Rc<EraPlan>,
    },
    /// Let the consensus instance of an era stop voting.
    DeactivateValidator(EraId),
    /// Send a message to all nodes.
    Broadcast(ConsensusMessage),
    /// Send a message to one node.
    Send(I, ConsensusMessage),
    /// Report back with a timer event after `delay`.
    SetTimeout {
        era_id: EraId,
        timestamp: Timestamp,
        delay: TimeDiff,
    },
    /// Request a proto block with a random bit, and report back.
    RequestProtoBlock {
        era_id: EraId,
        block_context: BlockContext,
        random_bit: bool,
    },
    /// Find out whether a proto block is valid, and report back by calling `handle_validated`.
    ValidateBlock {
        era_id: EraId,
        sender: I,
        proto_block: Rc<ProtoBlock>,
    },
    /// Tell the other components about a proto block.
    AnnounceProposedProtoBlock(Rc<ProtoBlock>),
    /// Tell the other components about a finalized block.
    AnnounceFinalizedBlock(Rc<FinalizedBlock>),
    /// Execute a finalized block.
    ExecuteBlock(Rc<FinalizedBlock>),
    /// Sign an executed block and answer with the signature.
    SignBlock(Rc<BlockHeader>),
    /// Get what is needed for a new era, and report back: the validators of the era, by the global state
    /// after the block and for the given version of the protocol, and the two blocks.
    CreateNewEra {
        block_header: Rc<BlockHeader>,
        era_id: EraId,
        protocol_version: ProtocolVersion,
        booking_block_height: u64,
        key_block_height: u64,
    },
    /// Tell the other components that a block was handled.
    AnnounceBlockHandled(Rc<BlockHeader>),
}

/// For each era, the validators against whom its consensus instance has evidence.
pub type EraEvidence = VecMap<EraId, Vec<PublicKey>>;

/// For each era, the validators that its consensus instance knows to be faulty, be it by evidence of
/// its own or because another instance has it.
pub type EraFaults = VecMap<EraId, Vec<PublicKey>>;

/// The consensus instance of the era has evidence against the validator.
pub open spec fn known_in(evidence: EraEvidence, era_id: EraId, key: PublicKey) -> bool {
    evidence@.contains_key(era_id) && evidence@[era_id]@.contains(key)
}

/// Some era that is still bonded in the given one has evidence against the validator.
pub open spec fn evidence_known(evidence: EraEvidence, era_id: EraId, key: PublicKey) -> bool {
    exists|i: int| 0 <= i < era_id.bonded().len() && known_in(evidence, #[trigger] era_id.bonded()[i], key)
}

/// The eras that have to be asked for evidence, up to the first one that has it, are active.
pub open spec fn can_ask(active: Map<EraId, crate::consensus::era::EraModel>, evidence: EraEvidence, era_id: EraId, key: PublicKey) -> bool {
    forall|i: int| 0 <= i < era_id.bonded().len() ==> active.contains_key(#[trigger] era_id.bonded()[i]) || (exists|j: int|
        0 <= j < i && known_in(evidence, #[trigger] era_id.bonded()[j], key))
}

/// Validators against whom no evidence is known.
pub open spec fn unknown(evidence: EraEvidence, era_id: EraId) -> spec_fn(PublicKey) -> bool {
    |key: PublicKey| !evidence_known(evidence, era_id, key)
}

/// The keys without repetitions, each in the place where it comes first.
pub open spec fn unique(keys: Seq<PublicKey>) -> Seq<PublicKey>
    decreases keys.len(),
{
    if keys.len() == 0 {
        Seq::empty()
    } else {
        let before = unique(keys.drop_last());
        if before.contains(keys.last()) {
            before
        } else {
            before.push(keys.last())
        }
    }
}

/// The validators known to be faulty, of the first `n` eras of the list.
pub open spec fn accused(faults: EraFaults, eras: Seq<EraId>, n: int) -> Seq<PublicKey>
    decreases n,
{
    if n <= 0 {
        Seq::empty()
    } else {
        accused(faults, eras, n - 1) + (if faults@.contains_key(eras[n - 1]) {
            faults@[eras[n - 1]]@
        } else {
            Seq::empty()
        })
    }
}

/// The sum of all stakes.
pub open spec fn stake_sum(stakes: Seq<(PublicKey, U512)>) -> int
    decreases stakes.len(),
{
    if stakes.len() == 0 {
        0
    } else {
        stake_sum(stakes.drop_last()) + stakes.last().1@
    }
}

/// The stakes of the validators whose keys could be converted, in order.
pub open spec fn known_stakes(weights: Seq<(Option<PublicKey>, U512)>) -> Seq<(PublicKey, U512)>
    decreases weights.len(),
{
    if weights.len() == 0 {
        Seq::empty()
    } else {
        let before = known_stakes(weights.drop_last());
        match weights.last().0 {
            Some(key) => before.push((key, weights.last().1)),
            None => before,
        }
    }
}

/// The divisor by which stakes become weights: the sum divided by `u64::MAX`, rounded up.
pub open spec fn scaling_factor(sum: int) -> int {
    (sum + u64::MAX - 1) / (u64::MAX as int)
}

/// The weights: the stakes scaled down.
pub open spec fn scaled(stakes: Seq<(PublicKey, U512)>, factor: int) -> Seq<(PublicKey, u64)> {
    stakes.map_values(|s: (PublicKey, U512)| (s.0, (s.1@ / factor) as u64))
}

/// The sum of all weights.
pub open spec fn weight_sum(weights: Seq<(PublicKey, u64)>) -> int
    decreases weights.len(),
{
    if weights.len() == 0 {
        0
    } else {
        weight_sum(weights.drop_last()) + weights.last().1
    }
}

/// The validator has a weight.
pub open spec fn is_validator(weights: Seq<(PublicKey, u64)>, key: PublicKey) -> bool {
    exists|i: int| 0 <= i < weights.len() && (#[trigger] weights[i]).0 == key
}

/// The bytes by which an upgrade takes part in the ID of a protocol instance.
pub open spec fn upgrade_bytes(up: crate::chainspec::UpgradePoint) -> Seq<u8> {
    crate::bytes::le_bytes(up.activation_point.rank as nat, 8) + (match up.upgrade_installer_bytes {
        Some(bytes) => bytes@,
        None => Seq::empty(),
    }) + (match up.upgrade_installer_args {
        Some(bytes) => bytes@,
        None => Seq::empty(),
    })
}

/// The bytes of the upgrades up to the first that does not apply to the block height yet.
pub open spec fn upgrades_bytes(upgrades: Seq<crate::chainspec::UpgradePoint>, block_height: u64) -> Seq<u8>
    decreases upgrades.len(),
{
    if upgrades.len() == 0 || upgrades[0].activation_point.rank > block_height {
        Seq::empty()
    } else {
        upgrade_bytes(upgrades[0]) + upgrades_bytes(upgrades.skip(1), block_height)
    }
}

/// The bytes whose hash is the ID of a protocol instance.
pub open spec fn instance_bytes(chainspec: Chainspec, post_state_hash: Digest, block_height: u64) -> Seq<u8> {
    vstd::utf8::encode_utf8(chainspec.genesis.name@) + crate::bytes::le_bytes(
        chainspec.genesis.timestamp.0 as nat,
        8,
    ) + post_state_hash.0@ + upgrades_bytes(chainspec.upgrades@, block_height)
}

/// The seed of an era: the first eight bytes of a hash.
pub open spec fn seed_of(booking_block_hash: BlockHash, key_block_seed: Digest) -> nat {
    crate::bytes::le_value(crate::hash::blake2b_256(booking_block_hash.0@ + key_block_seed.0@).take(8))
}

/// The later of two moments, or the longer of two durations.
pub open spec fn larger(a: int, b: int) -> int {
    if a >= b {
        a
    } else {
        b
    }
}

/// The least time that the minimum number of rounds takes.
pub open spec fn rounds_len(config: HighwayConfig) -> int {
    vstd::arithmetic::power2::pow2(config.minimum_round_exponent as nat) * config.minimum_era_height
}

/// The earliest end of an era.
pub open spec fn min_end_time(config: HighwayConfig, start_time: Timestamp) -> int {
    start_time.0 + larger(config.era_duration.0 as int, rounds_len(config))
}

/// An era with these stakes can be started: there is weight in it, and what has to be computed can be.
pub open spec fn startable(config: HighwayConfig, stakes: Seq<(PublicKey, U512)>, start_time: Timestamp) -> bool {
    let sum = stake_sum(stakes);
    &&& sum > 0
    &&& sum + u64::MAX - 1 < crate::uint::limit()
    &&& weight_sum(scaled(stakes, scaling_factor(sum))) * config.finality_threshold_percent <= u64::MAX
    &&& config.minimum_round_exponent < 64
    &&& start_time.0 + config.era_duration.0 <= u64::MAX
    &&& rounds_len(config) <= u64::MAX
    &&& min_end_time(config, start_time) <= u64::MAX
}

/// The era supervisor.
pub struct EraSupervisor {
    /// The eras that are kept.
    active_eras: VecMap<EraId, Era>,
    public_signing_key: PublicKey,
    current_era: EraId,
    chainspec: Chainspec,
    node_start_time: Timestamp,
}

/// The era supervisor.
#[verifier::ext_equal]
pub ghost struct SupervisorModel {
    pub active: Map<EraId, crate::consensus::era::EraModel>,
    pub public_signing_key: PublicKey,
    pub current_era: EraId,
    pub chainspec: Chainspec,
    pub node_start_time: Timestamp,
}

impl SupervisorModel {
    /// The rules of the Highway protocol.
    pub open spec fn config(self) -> HighwayConfig {
        self.chainspec.genesis.highway_config
    }

    /// An era can be started: it does not exist yet, there is weight in it, and what has to be
    /// computed can be.
    pub open spec fn can_start(self, era_id: EraId, stakes: Seq<(PublicKey, U512)>, start_time: Timestamp) -> bool {
        !self.active.contains_key(era_id) && startable(self.config(), stakes, start_time)
    }

    /// This node votes in the era: it was already running when the era began, the era is still
    /// ongoing based on its minimum duration, and the node is one of the validators.
    pub open spec fn should_activate(self, weights: Seq<(PublicKey, u64)>, timestamp: Timestamp, start_time: Timestamp) -> bool {
        &&& self.node_start_time.0 < start_time.0
        &&& min_end_time(self.config(), start_time) >= timestamp.0
        &&& is_validator(weights, self.public_signing_key)
    }

    /// The plan is the one for the era.
    pub open spec fn is_plan(
        self,
        plan: EraPlan,
        timestamp: Timestamp,
        stakes: Seq<(PublicKey, U512)>,
        seed: u64,
        start_time: Timestamp,
        start_height: u64,
        post_state_hash: Digest,
    ) -> bool {
        let weights = scaled(stakes, scaling_factor(stake_sum(stakes)));
        &&& plan.instance_id.0@ == crate::hash::blake2b_256(
            instance_bytes(self.chainspec, post_state_hash, start_height),
        )
        &&& plan.validators@ == weights
        &&& plan.ftt == weight_sum(weights) * self.config().finality_threshold_percent / 100
        &&& plan.params == Params::of(
            seed,
            BLOCK_REWARD,
            BLOCK_REWARD / 5,
            self.config().minimum_round_exponent,
            self.config().minimum_era_height,
            start_time,
            Timestamp((start_time.0 + self.config().era_duration.0) as u64),
        )
        &&& plan.activate_at == if self.should_activate(weights, timestamp, start_time) {
            Some(Timestamp(larger(timestamp.0 as int, start_time.0 as int) as u64))
        } else {
            None
        }
    }

    /// The supervisor after an era was started.
    pub open spec fn with_era(self, era_id: EraId, start_height: u64) -> SupervisorModel {
        let added = self.active.insert(
            era_id,
            crate::consensus::era::EraModel { start_height, candidates: Seq::empty() },
        );
        SupervisorModel {
            current_era: era_id,
            active: if era_id.0 >= 2 * BONDED_ERAS + 1 {
                added.remove(EraId((era_id.0 - (2 * BONDED_ERAS + 1)) as u64))
            } else {
                added
            },
            ..self
        }
    }

    /// A call of the consensus instance of an era, if the era is active.
    pub open spec fn delegated<I>(self, era_id: EraId, call: ConsensusCall<I>) -> Seq<Effect<I>> {
        if self.active.contains_key(era_id) {
            seq![Effect::CallConsensus { era_id, call }]
        } else {
            seq![]
        }
    }

    /// Requests for evidence to the first `n` eras of the list, as far as they are active.
    pub open spec fn evidence_requests<I>(self, eras: Seq<EraId>, n: int, sender: I, pub_key: PublicKey) -> Seq<Effect<I>>
        decreases n,
    {
        if n <= 0 {
            Seq::empty()
        } else {
            self.evidence_requests(eras, n - 1, sender, pub_key) + self.delegated(
                eras[n - 1],
                ConsensusCall::RequestEvidence { sender, pub_key },
            )
        }
    }

    /// What is done about a message.
    pub open spec fn message_effects<I>(self, sender: I, msg: ConsensusMessage) -> Seq<Effect<I>> {
        match msg {
            ConsensusMessage::Protocol { era_id, payload } => self.delegated(
                era_id,
                ConsensusCall::HandleMessage {
                    sender,
                    payload,
                    evidence_only: era_id.0 + BONDED_ERAS < self.current_era.0,
                },
            ),
            ConsensusMessage::EvidenceRequest { era_id, pub_key } => if era_id.0 + BONDED_ERAS < self.current_era.0 {
                Seq::empty()
            } else {
                self.evidence_requests(era_id.bonded(), era_id.bonded().len() as int, sender, pub_key)
            },
        }
    }

    /// The effects propose the proto block, with accusations of all who are known to be faulty.
    pub open spec fn proposal_effects<I>(
        self,
        era_id: EraId,
        proto_block: Rc<ProtoBlock>,
        block_context: BlockContext,
        faults: EraFaults,
        effects: Seq<Effect<I>>,
    ) -> bool {
        exists|candidate: Rc<CandidateBlock>|
            {
                &&& candidate.proto_block == proto_block
                &&& candidate.accusations@ == unique(accused(faults, era_id.bonded(), era_id.bonded().len() as int))
                &&& effects == seq![Effect::<I>::AnnounceProposedProtoBlock(proto_block)] + #[trigger] self.delegated(
                    era_id,
                    ConsensusCall::Propose { candidate, block_context },
                )
            }
    }

    /// What is done about a block that was executed.
    pub open spec fn chain_block_effects<I>(self, block_header: Rc<BlockHeader>) -> Seq<Effect<I>> {
        if block_header.era_id.0 < self.current_era.0 {
            seq![Effect::<I>::SignBlock(block_header)]
        } else if block_header.switch_block {
            let era_id = EraId((block_header.era_id.0 + 1) as u64);
            let start = self.active[SupervisorModel::after_booking(era_id)].start_height;
            seq![
                Effect::<I>::SignBlock(block_header),
                Effect::<I>::CreateNewEra {
                    block_header,
                    era_id,
                    protocol_version: ProtocolVersion { major: 1, minor: 0, patch: 0 },
                    booking_block_height: (if start > 0 {
                        start - 1
                    } else {
                        0
                    }) as u64,
                    key_block_height: block_header.height,
                },
            ]
        } else {
            seq![Effect::<I>::SignBlock(block_header), Effect::<I>::AnnounceBlockHandled(block_header)]
        }
    }

    /// The era behind a switch block was begun.
    pub open spec fn era_created<I>(
        self,
        block_header: Rc<BlockHeader>,
        booking_block_hash: BlockHash,
        key_block_seed: Digest,
        validator_weights: Seq<(Option<PublicKey>, U512)>,
        now: Timestamp,
        after: SupervisorModel,
        effects: Seq<Effect<I>>,
    ) -> bool {
        &&& after == self.with_era(EraId((block_header.era_id.0 + 1) as u64), (block_header.height + 1) as u64)
        &&& exists|plan: Rc<EraPlan>|
            {
                &&& #[trigger] self.is_plan(
                    *plan,
                    now,
                    known_stakes(validator_weights),
                    seed_of(booking_block_hash, key_block_seed) as u64,
                    block_header.timestamp,
                    (block_header.height + 1) as u64,
                    block_header.state_root_hash,
                )
                &&& effects == seq![
                    Effect::<I>::DeactivateValidator(self.current_era),
                    Effect::<I>::StartEra { era_id: EraId((block_header.era_id.0 + 1) as u64), plan },
                    Effect::<I>::AnnounceBlockHandled(block_header),
                ]
            }
    }

    /// The era of the booking block of the given one, plus one.
    pub open spec fn after_booking(era_id: EraId) -> EraId {
        EraId(
            (if era_id.0 >= AUCTION_DELAY {
                era_id.0 - AUCTION_DELAY
            } else {
                0
            }) as u64,
        )
    }
}

/// The candidates are valid, or not.
pub open spec fn resolutions<I>(era_id: EraId, candidates: Seq<Rc<CandidateBlock>>, valid: bool) -> Seq<Effect<I>> {
    candidates.map_values(
        |candidate: Rc<CandidateBlock>|
            Effect::CallConsensus { era_id, call: ConsensusCall::ResolveValidity { candidate, valid } },
    )
}

/// The peer is asked for evidence against each of the validators.
pub open spec fn evidence_wanted<I>(era_id: EraId, sender: I, keys: Seq<PublicKey>) -> Seq<Effect<I>> {
    keys.map_values(
        |pub_key: PublicKey| Effect::Send(sender, ConsensusMessage::EvidenceRequest { era_id, pub_key }),
    )
}

impl View for EraSupervisor {
    type V = SupervisorModel;

    closed spec fn view(&self) -> SupervisorModel {
        SupervisorModel {
            active: self.active_eras@.map_values(|e: Era| e@),
            public_signing_key: self.public_signing_key,
            current_era: self.current_era,
            chainspec: self.chainspec,
            node_start_time: self.node_start_time,
        }
    }
}

/// Weights are never more than the stakes divided by the factor.
proof fn lemma_scaled(stakes: Seq<(PublicKey, U512)>, factor: int, n: int)
    requires
        factor > 0,
        stake_sum(stakes) <= factor * u64::MAX,
        0 <= n <= stakes.len(),
    ensures
        0 <= stake_sum(stakes.take(n)) <= stake_sum(stakes),
        0 <= weight_sum(scaled(stakes, factor).take(n)),
        factor * weight_sum(scaled(stakes, factor).take(n)) <= stake_sum(stakes.take(n)),
    decreases n,
{
    lemma_stakes_prefix(stakes, n);
    if n == 0 {
        assert(stakes.take(0) =~= Seq::empty());
        assert(scaled(stakes, factor).take(0) =~= Seq::empty());
    } else {
        lemma_scaled(stakes, factor, n - 1);
        let s = stakes[n - 1].1;
        let weights = scaled(stakes, factor);
        assert(stakes.take(n).drop_last() =~= stakes.take(n - 1));
        assert(weights.take(n).drop_last() =~= weights.take(n - 1));
        lemma_one_scaled(stakes, factor, n - 1);
        let q = s@ / factor;
        let w = weight_sum(weights.take(n - 1));
        assert(factor * (w + q) == factor * w + factor * q) by (nonlinear_arith);
        vstd::arithmetic::div_mod::lemma_fundamental_div_mod(s@, factor);
    }
}

/// What a prefix of the stakes adds up to is no more than the whole.
proof fn lemma_stakes_prefix(stakes: Seq<(PublicKey, U512)>, n: int)
    requires
        0 <= n <= stakes.len(),
    ensures
        0 <= stake_sum(stakes.take(n)) <= stake_sum(stakes),
    decreases stakes.len(),
{
    if stakes.len() > 0 {
        stakes.last().1.lemma_bounds();
    }
    if n == stakes.len() {
        assert(stakes.take(n) =~= stakes);
        if n > 0 {
            lemma_stakes_prefix(stakes.drop_last(), n - 1);
        }
    } else {
        lemma_stakes_prefix(stakes.drop_last(), n);
        assert(stakes.drop_last().take(n) =~= stakes.take(n));
    }
}

/// Each scaled stake fits.
pub proof fn lemma_one_scaled(stakes: Seq<(PublicKey, U512)>, factor: int, i: int)
    requires
        factor > 0,
        stake_sum(stakes) <= factor * u64::MAX,
        0 <= i < stakes.len(),
    ensures
        0 <= stakes[i].1@ / factor <= u64::MAX,
        scaled(stakes, factor)[i] == (stakes[i].0, (stakes[i].1@ / factor) as u64),
{
    let s = stakes[i].1;
    s.lemma_bounds();
    lemma_stakes_prefix(stakes, i + 1);
    lemma_stakes_prefix(stakes, i);
    assert(stakes.take(i + 1).drop_last() =~= stakes.take(i));
    assert(s@ <= factor * u64::MAX);
    vstd::arithmetic::div_mod::lemma_fundamental_div_mod(s@, factor);
    let q = s@ / factor;
    assert(q <= u64::MAX) by (nonlinear_arith)
        requires
            factor > 0,
            s@ <= factor * u64::MAX,
            s@ == factor * q + s@ % factor,
            s@ % factor >= 0,
    ;
    assert(q >= 0) by (nonlinear_arith)
        requires
            factor > 0,
            s@ >= 0,
            q == s@ / factor,
    ;
}

/// The factor is large enough for all stakes.
pub proof fn lemma_factor(sum: int)
    requires
        sum > 0,
    ensures
        scaling_factor(sum) > 0,
        sum <= scaling_factor(sum) * u64::MAX,
{
    let m = u64::MAX as int;
    let f = scaling_factor(sum);
    vstd::arithmetic::div_mod::lemma_fundamental_div_mod(sum + m - 1, m);
    vstd::arithmetic::div_mod::lemma_mod_bound(sum + m - 1, m);
    assert(m * f == f * m) by (nonlinear_arith);
    assert(f > 0) by (nonlinear_arith)
        requires
            f * m > 0,
            m > 0,
    ;
}

/// Scaled down by the sum divided by `u64::MAX`, rounded up, all stakes together are guaranteed to
/// be no more than `u64::MAX`.
pub proof fn law_scaled_total_fits(stakes: Seq<(PublicKey, U512)>)
    requires
        stake_sum(stakes) > 0,
    ensures
        weight_sum(scaled(stakes, scaling_factor(stake_sum(stakes)))) <= u64::MAX,
        forall|i: int| 0 <= i < stakes.len() ==> (#[trigger] stakes[i]).1@ / scaling_factor(stake_sum(stakes)) <= u64::MAX,
{
    let sum = stake_sum(stakes);
    let f = scaling_factor(sum);
    let n = stakes.len() as int;
    lemma_factor(sum);
    lemma_scaled(stakes, f, n);
    assert(stakes.take(n) =~= stakes);
    assert(scaled(stakes, f).take(n) =~= scaled(stakes, f));
    let w = weight_sum(scaled(stakes, f));
    assert(w <= u64::MAX) by (nonlinear_arith)
        requires
            f > 0,
            f * w <= sum,
            sum <= f * u64::MAX,
    ;
    assert forall|i: int| 0 <= i < stakes.len() implies (#[trigger] stakes[i]).1@ / f <= u64::MAX by {
        lemma_one_scaled(stakes, f, i);
    }
}

/// Returns the keys without repetitions, each in the place where it comes first.
fn unique_keys(keys: &Vec<PublicKey>) -> (r: Vec<PublicKey>)
    ensures
        r@ == unique(keys@),
{
    let mut r: Vec<PublicKey> = Vec::new();
    let mut i: usize = 0;
    assert(keys@.take(0) =~= Seq::empty());
    while i < keys.len()
        invariant
            i <= keys@.len(),
            r@ == unique(keys@.take(i as int)),
        decreases keys@.len() - i,
    {
        let key = keys[i];
        proof {
            assert(keys@.take(i + 1).drop_last() =~= keys@.take(i as int));
            assert(keys@.take(i + 1).last() == key);
        }
        if !contains_key(&r, &key) {
            r.push(key);
        }
        i += 1;
    }
    assert(keys@.take(keys@.len() as int) =~= keys@);
    r
}

/// Returns whether a key is in the list.
fn contains_key(keys: &Vec<PublicKey>, key: &PublicKey) -> (r: bool)
    ensures
        r == keys@.contains(*key),
{
    let mut i: usize = 0;
    while i < keys.len()
        invariant
            i <= keys@.len(),
            forall|j: int| 0 <= j < i ==> keys@[j] != *key,
        decreases keys@.len() - i,
    {
        if keys[i] == *key {
            assert(keys@[i as int] == *key);
            return true;
        }
        i += 1;
    }
    false
}

/// Returns the sum of all weights.
fn total_weight(validators: &Vec<(PublicKey, u64)>) -> (r: u64)
    requires
        weight_sum(validators@) <= u64::MAX,
    ensures
        r == weight_sum(validators@),
{
    let ghost weights = validators@;
    let mut total: u64 = 0;
    let mut i: usize = 0;
    assert(weights.take(0) =~= Seq::empty());
    while i < validators.len()
        invariant
            i <= weights.len(),
            weights == validators@,
            weight_sum(weights) <= u64::MAX,
            total == weight_sum(weights.take(i as int)),
        decreases weights.len() - i,
    {
        proof {
            assert(weights.take(i + 1).drop_last() =~= weights.take(i as int));
            lemma_weights_prefix(weights, i + 1);
        }
        total = total + validators[i].1;
        i += 1;
    }
    assert(weights.take(weights.len() as int) =~= weights);
    total
}

/// Returns whether the validator has a weight.
fn has_weight(validators: &Vec<(PublicKey, u64)>, key: &PublicKey) -> (r: bool)
    ensures
        r == is_validator(validators@, *key),
{
    let mut i: usize = 0;
    while i < validators.len()
        invariant
            i <= validators@.len(),
            forall|j: int| 0 <= j < i ==> (#[trigger] validators@[j]).0 != *key,
        decreases validators@.len() - i,
    {
        if validators[i].0 == *key {
            assert(validators@[i as int].0 == *key);
            return true;
        }
        i += 1;
    }
    false
}

/// Returns the stakes of the validators whose keys could be converted.
fn stakes_of(validator_weights: &Vec<(Option<PublicKey>, U512)>) -> (r: Vec<(PublicKey, U512)>)
    ensures
        r@ == known_stakes(validator_weights@),
{
    let ghost all = validator_weights@;
    let mut stakes: Vec<(PublicKey, U512)> = Vec::new();
    let mut i: usize = 0;
    assert(all.take(0) =~= Seq::empty());
    while i < validator_weights.len()
        invariant
            i <= all.len(),
            all == validator_weights@,
            stakes@ == known_stakes(all.take(i as int)),
        decreases all.len() - i,
    {
        proof {
            assert(all.take(i + 1).drop_last() =~= all.take(i as int));
            assert(all.take(i + 1).last() == all[i as int]);
        }
        let (opt_key, stake) = validator_weights[i];
        if let Some(key) = opt_key {
            stakes.push((key, stake));
        }
        i += 1;
    }
    assert(all.take(all.len() as int) =~= all);
    stakes
}

/// Returns the block, or the height at which it was looked for if it was not found.
pub fn block_or_height<T>(block: Option<T>, height: u64) -> (r: Result<T, u64>)
    ensures
        r == match block {
            Some(b) => Ok(b),
            None => Err(height),
        },
{
    match block {
        Some(b) => Ok(b),
        None => Err(height),
    }
}

impl EraSupervisor {
    /// No era is kept twice.
    pub closed spec fn wf(&self) -> bool {
        self.active_eras.wf()
    }

    /// The supervisor before the first era.
    pub open spec fn initial(public_signing_key: PublicKey, chainspec: Chainspec, node_start_time: Timestamp) -> SupervisorModel {
        SupervisorModel {
            active: Map::empty(),
            public_signing_key,
            current_era: EraId(0),
            chainspec,
            node_start_time,
        }
    }

    /// Creates a new `EraSupervisor`, starting in era 0, and the plan for that era.
    pub fn new(
        timestamp: Timestamp,
        public_signing_key: PublicKey,
        node_start_time: Timestamp,
        validator_stakes: Vec<(PublicKey, U512)>,
        chainspec: Chainspec,
        genesis_post_state_hash: Digest,
    ) -> (r: (EraSupervisor, EraPlan))
        requires
            EraSupervisor::initial(public_signing_key, chainspec, node_start_time).can_start(
                EraId(0),
                validator_stakes@,
                chainspec.genesis.highway_config.genesis_era_start_timestamp,
            ),
        ensures
            r.0.wf(),
            r.0@ == EraSupervisor::initial(public_signing_key, chainspec, node_start_time).with_era(EraId(0), 0),
            EraSupervisor::initial(public_signing_key, chainspec, node_start_time).is_plan(
                r.1,
                timestamp,
                validator_stakes@,
                0,
                chainspec.genesis.highway_config.genesis_era_start_timestamp,
                0,
                genesis_post_state_hash,
            ),
    {
        let start_time = chainspec.genesis.highway_config.genesis_era_start_timestamp;
        let mut era_supervisor = EraSupervisor {
            active_eras: VecMap::new(),
            public_signing_key,
            current_era: EraId(0),
            chainspec,
            node_start_time,
        };
        assert(era_supervisor@.active =~= Map::<EraId, crate::consensus::era::EraModel>::empty());
        let plan = era_supervisor.new_era(
            EraId(0),
            timestamp,
            validator_stakes,
            0,  // hardcoded seed for era 0
            start_time,
            0,  // the first block has height 0
            genesis_post_state_hash,
        );
        (era_supervisor, plan)
    }

    /// Returns the rules of the Highway protocol.
    pub fn highway_config(&self) -> (r: HighwayConfig)
        ensures
            r == self@.config(),
    {
        self.chainspec.genesis.highway_config
    }

    /// Returns the ID of the protocol instance of an era.
    pub fn instance_id(&self, post_state_hash: Digest, block_height: u64) -> (r: Digest)
        ensures
            r.0@ == crate::hash::blake2b_256(instance_bytes(self@.chainspec, post_state_hash, block_height)),
    {
        let mut data: Vec<u8> = Vec::new();
        data.extend_from_slice(self.chainspec.genesis.name.as_str().as_bytes());
        append_le_bytes(&mut data, self.chainspec.genesis.timestamp.millis());
        data.extend_from_slice(&post_state_hash.0);
        let ghost start = data@;
        let ghost ups = self.chainspec.upgrades@;
        proof {
            assert(start =~= vstd::utf8::encode_utf8(self.chainspec.genesis.name@) + crate::bytes::le_bytes(
                self.chainspec.genesis.timestamp.0 as nat,
                8,
            ) + post_state_hash.0@);
            assert(ups.skip(0) =~= ups);
        }
        let mut i: usize = 0;
        assert(start + upgrades_bytes(ups, block_height) =~= data@ + upgrades_bytes(ups.skip(i as int), block_height));
        while i < self.chainspec.upgrades.len() && self.chainspec.upgrades[i].activation_point.rank <= block_height
            invariant
                i <= ups.len(),
                ups == self.chainspec.upgrades@,
                start + upgrades_bytes(ups, block_height) == data@ + upgrades_bytes(ups.skip(i as int), block_height),
            decreases ups.len() - i,
        {
            let ghost before = data@;
            let upgrade_point = &self.chainspec.upgrades[i];
            append_le_bytes(&mut data, upgrade_point.activation_point.rank);
            if let Some(bytes) = &upgrade_point.upgrade_installer_bytes {
                data.extend_from_slice(bytes.as_slice());
            }
            if let Some(bytes) = &upgrade_point.upgrade_installer_args {
                data.extend_from_slice(bytes.as_slice());
            }
            proof {
                assert(data@ =~= before + upgrade_bytes(ups[i as int]));
                assert(ups.skip(i as int)[0] == ups[i as int]);
                assert(ups.skip(i as int).skip(1) =~= ups.skip(i + 1));
                assert(data@ + upgrades_bytes(ups.skip(i + 1), block_height) =~= before + upgrades_bytes(ups.skip(i as int), block_height));
            }
            i += 1;
        }
        proof {
            if i < ups.len() {
                assert(ups.skip(i as int)[0] == ups[i as int]);
            }
            assert(data@ =~= start + upgrades_bytes(ups, block_height));
            assert(data@ =~= instance_bytes(self@.chainspec, post_state_hash, block_height));
        }
        hash(data.as_slice())
    }

    /// Returns the height of the booking block of an era.
    pub fn booking_block_height(&self, era_id: EraId) -> (r: u64)
        requires
            self.wf(),
            self@.active.contains_key(SupervisorModel::after_booking(era_id)),
        ensures
            r == ({
                let height = self@.active[SupervisorModel::after_booking(era_id)].start_height;
                if height > 0 {
                    height - 1
                } else {
                    0
                }
            }),
    {
        // The booking block for era N is the last block of era N - AUCTION_DELAY - 1
        // To find it, we get the start height of era N - AUCTION_DELAY and subtract 1
        let after_booking_era_id = EraId(era_id.0.saturating_sub(AUCTION_DELAY));
        match self.active_eras.get(&after_booking_era_id) {
            Some(era) => era.start_height().saturating_sub(1),
            None => 0,
        }
    }

    /// Returns the height of the key block of an era: the switch block of the previous one.
    pub fn key_block_height(&self, _era_id: EraId, start_height: u64) -> (r: u64)
        ensures
            r == if start_height > 0 {
                start_height - 1
            } else {
                0
            },
    {
        start_height.saturating_sub(1)
    }

    /// Returns the seed of an era.
    pub fn era_seed(booking_block_hash: BlockHash, key_block_seed: Digest) -> (r: u64)
        ensures
            r == seed_of(booking_block_hash, key_block_seed),
    {
        let mut data: Vec<u8> = Vec::new();
        data.extend_from_slice(&booking_block_hash.0);
        data.extend_from_slice(&key_block_seed.0);
        assert(data@ =~= booking_block_hash.0@ + key_block_seed.0@);
        let result = hash(data.as_slice());
        leading_le_u64(&result.0)
    }

    /// Returns the stakes scaled down to weights.
    fn scale_stakes(validator_stakes: &Vec<(PublicKey, U512)>) -> (r: Vec<(PublicKey, u64)>)
        requires
            stake_sum(validator_stakes@) > 0,
            stake_sum(validator_stakes@) + u64::MAX - 1 < crate::uint::limit(),
        ensures
            r@ == scaled(validator_stakes@, scaling_factor(stake_sum(validator_stakes@))),
    {
        let ghost stakes = validator_stakes@;
        let ghost sum = stake_sum(stakes);
        let mut sum_stakes = U512::zero();
        let mut i: usize = 0;
        assert(stakes.take(0) =~= Seq::empty());
        while i < validator_stakes.len()
            invariant
                i <= stakes.len(),
                stakes == validator_stakes@,
                sum == stake_sum(stakes),
                sum < crate::uint::limit(),
                sum_stakes@ == stake_sum(stakes.take(i as int)),
            decreases stakes.len() - i,
        {
            proof {
                assert(stakes.take(i + 1).drop_last() =~= stakes.take(i as int));
                lemma_stakes_prefix(stakes, i + 1);
            }
            sum_stakes = sum_stakes.plus(&validator_stakes[i].1);
            i += 1;
        }
        assert(stakes.take(stakes.len() as int) =~= stakes);
        // For Highway, we need u64 weights. Scale down by  sum / u64::MAX,  rounded up.
        // If we round up the divisor, the resulting sum is guaranteed to be  <= u64::MAX.
        let max = U512::from_u64(u64::MAX);
        let factor = sum_stakes.plus(&max.minus(&U512::one())).divided_by(&max);
        proof {
            lemma_factor(sum);
        }
        let mut validators: Vec<(PublicKey, u64)> = Vec::new();
        let ghost goal = scaled(stakes, scaling_factor(sum));
        let mut j: usize = 0;
        while j < validator_stakes.len()
            invariant
                j <= stakes.len(),
                stakes == validator_stakes@,
                sum == stake_sum(stakes),
                sum > 0,
                factor@ == scaling_factor(sum),
                factor@ > 0,
                sum <= factor@ * u64::MAX,
                goal == scaled(stakes, factor@),
                validators@ == goal.take(j as int),
            decreases stakes.len() - j,
        {
            let (key, stake) = validator_stakes[j];
            proof {
                lemma_one_scaled(stakes, factor@, j as int);
            }
            let weight = match stake.divided_by(&factor).to_u64() {
                Some(weight) => weight,
                None => 0,
            };
            validators.push((key, weight));
            assert(validators@ =~= goal.take(j + 1));
            j += 1;
        }
        assert(goal.take(stakes.len() as int) =~= goal);
        validators
    }

    /// Returns whether an era can be started: it does not exist yet, there is weight in it, and what
    /// has to be computed can be.
    pub fn can_start_era(&self, era_id: EraId, validator_stakes: &Vec<(PublicKey, U512)>, start_time: Timestamp) -> (r: bool)
        requires
            self.wf(),
        ensures
            r == self@.can_start(era_id, validator_stakes@, start_time),
    {
        !self.is_active(era_id) && EraSupervisor::can_start_with(&self.highway_config(), validator_stakes, start_time)
    }

    /// Returns whether an era with these stakes can be started: there is weight in it, and what has to
    /// be computed can be.
    pub fn can_start_with(config: &HighwayConfig, validator_stakes: &Vec<(PublicKey, U512)>, start_time: Timestamp) -> (r: bool)
        ensures
            r == startable(*config, validator_stakes@, start_time),
    {
        let ghost stakes = validator_stakes@;
        let ghost sum = stake_sum(stakes);
        let mut sum_stakes = U512::zero();
        let mut i: usize = 0;
        assert(stakes.take(0) =~= Seq::empty());
        while i < validator_stakes.len()
            invariant
                i <= stakes.len(),
                stakes == validator_stakes@,
                sum == stake_sum(stakes),
                sum_stakes@ == stake_sum(stakes.take(i as int)),
            decreases stakes.len() - i,
        {
            proof {
                assert(stakes.take(i + 1).drop_last() =~= stakes.take(i as int));
                lemma_stakes_prefix(stakes, i + 1);
            }
            sum_stakes = match sum_stakes.checked_add(&validator_stakes[i].1) {
                Some(sum_stakes) => sum_stakes,
                None => {
                    return false;
                },
            };
            i += 1;
        }
        assert(stakes.take(stakes.len() as int) =~= stakes);
        if sum_stakes.is_zero() || sum_stakes.checked_add(&U512::from_u64(u64::MAX - 1)).is_none() {
            return false;
        }
        proof {
            law_scaled_total_fits(stakes);
            lemma_stakes_prefix(stakes, 0);
        }
        let validators = EraSupervisor::scale_stakes(validator_stakes);
        let total_weight = total_weight(&validators);
        if total_weight.checked_mul(config.finality_threshold_percent as u64).is_none() {
            return false;
        }
        if config.minimum_round_exponent >= 64 {
            return false;
        }
        let min_round_len = crate::consensus::highway::unit::round_len(config.minimum_round_exponent);
        let era_rounds_len = match min_round_len.0.checked_mul(config.minimum_era_height) {
            Some(millis) => TimeDiff(millis),
            None => {
                return false;
            },
        };
        let longest = config.era_duration.max(era_rounds_len);
        start_time.0.checked_add(config.era_duration.0).is_some() && start_time.0.checked_add(longest.0).is_some()
    }

    /// Starts a new era; it must not exist yet. Returns the plan for its consensus instance.
    pub fn new_era(
        &mut self,
        era_id: EraId,
        timestamp: Timestamp,
        validator_stakes: Vec<(PublicKey, U512)>,
        seed: u64,
        start_time: Timestamp,
        start_height: u64,
        post_state_hash: Digest,
    ) -> (r: EraPlan)
        requires
            old(self).wf(),
            old(self)@.can_start(era_id, validator_stakes@, start_time),
        ensures
            final(self).wf(),
            final(self)@ == old(self)@.with_era(era_id, start_height),
            old(self)@.is_plan(
                r,
                timestamp,
                validator_stakes@,
                seed,
                start_time,
                start_height,
                post_state_hash,
            ),
    {
        let ghost pre = self@;
        self.current_era = era_id;
        let validators = EraSupervisor::scale_stakes(&validator_stakes);
        let ghost weights = validators@;
        proof {
            law_scaled_total_fits(validator_stakes@);
        }
        let config = self.highway_config();
        let total_weight = total_weight(&validators);
        let ours = has_weight(&validators, &self.public_signing_key);
        let ftt = total_weight * (config.finality_threshold_percent as u64) / 100;
        let params = Params::new(
            seed,
            BLOCK_REWARD,
            BLOCK_REWARD / 5,
            config.minimum_round_exponent,
            config.minimum_era_height,
            start_time,
            start_time + config.era_duration,
        );
        // Activate the era if this node was already running when the era began, it is still
        // ongoing based on its minimum duration, and we are one of the validators.
        let min_round_len = crate::consensus::highway::unit::round_len(config.minimum_round_exponent);
        let era_rounds_len = min_round_len * config.minimum_era_height;
        let min_end_time = start_time + config.era_duration.max(era_rounds_len);
        let should_activate = self.node_start_time.0 < start_time.0 && min_end_time.0 >= timestamp.0 && ours;
        let activate_at = if should_activate {
            Some(timestamp.max(start_time))
        } else {
            None
        };
        let instance_id = self.instance_id(post_state_hash, start_height);
        let _ = self.active_eras.insert(era_id, Era::new(start_height));
        // Remove the era that has become obsolete now. We keep 2 * BONDED_ERAS past eras because
        // the oldest bonded era could still receive blocks that refer to BONDED_ERAS before that.
        if let Some(obsolete_era_id) = era_id.checked_sub(2 * BONDED_ERAS + 1) {
            let _ = self.active_eras.remove(&obsolete_era_id);
        }
        assert(self@.active =~= pre.with_era(era_id, start_height).active);
        EraPlan { instance_id, validators, params, ftt, activate_at }
    }

    /// Returns the number of the current era.
    pub fn current_era(&self) -> (r: EraId)
        ensures
            r == self@.current_era,
    {
        self.current_era
    }

    /// Returns whether an era is active.
    pub fn is_active(&self, era_id: EraId) -> (r: bool)
        requires
            self.wf(),
        ensures
            r == self@.active.contains_key(era_id),
    {
        self.active_eras.contains_key(&era_id)
    }

    /// Has the consensus instance of the specified era called, if the era is active.
    fn delegate_to_era<I>(&self, era_id: EraId, call: ConsensusCall<I>) -> (r: Vec<Effect<I>>)
        requires
            self.wf(),
        ensures
            r@ == self@.delegated(era_id, call),
    {
        let mut effects: Vec<Effect<I>> = Vec::new();
        if self.is_active(era_id) {
            effects.push(Effect::CallConsensus { era_id, call });
        }
        assert(effects@ =~= self@.delegated(era_id, call));
        effects
    }

    /// Handles a timer of an era.
    pub fn handle_timer<I>(&self, era_id: EraId, timestamp: Timestamp) -> (r: Vec<Effect<I>>)
        requires
            self.wf(),
        ensures
            r@ == self@.delegated(era_id, ConsensusCall::<I>::HandleTimer(timestamp)),
    {
        self.delegate_to_era(era_id, ConsensusCall::HandleTimer(timestamp))
    }

    /// Handles a message from another node.
    pub fn handle_message<I: Copy>(&self, sender: I, msg: ConsensusMessage) -> (r: Vec<Effect<I>>)
        requires
            self.wf(),
            match msg {
                ConsensusMessage::Protocol { era_id, .. } => era_id.0 + BONDED_ERAS <= u64::MAX,
                ConsensusMessage::EvidenceRequest { era_id, .. } => era_id.0 + BONDED_ERAS <= u64::MAX,
            },
        ensures
            r@ == self@.message_effects(sender, msg),
    {
        match msg {
            ConsensusMessage::Protocol { era_id, payload } => {
                // If the era is already unbonded, only accept new evidence, because still-bonded
                // eras could depend on that.
                let evidence_only = era_id.0 + BONDED_ERAS < self.current_era.0;
                self.delegate_to_era(era_id, ConsensusCall::HandleMessage { sender, payload, evidence_only })
            },
            ConsensusMessage::EvidenceRequest { era_id, pub_key } => {
                let mut effects: Vec<Effect<I>> = Vec::new();
                if era_id.0 + BONDED_ERAS < self.current_era.0 {
                    return effects;
                }
                let eras = era_id.iter_bonded();
                let mut i: usize = 0;
                while i < eras.len()
                    invariant
                        i <= eras@.len(),
                        self.wf(),
                        effects@ == self@.evidence_requests(eras@, i as int, sender, pub_key),
                    decreases eras@.len() - i,
                {
                    let mut more = self.delegate_to_era(eras[i], ConsensusCall::RequestEvidence { sender, pub_key });
                    effects.append(&mut more);
                    i += 1;
                }
                effects
            },
        }
    }

    /// Handles a proto block that is to be proposed in an era. All validators known to be faulty in an era
    /// that is still bonded are accused.
    pub fn handle_new_proto_block<I>(
        &self,
        era_id: EraId,
        proto_block: Rc<ProtoBlock>,
        block_context: BlockContext,
        faults: &EraFaults,
    ) -> (r: Vec<Effect<I>>)
        requires
            self.wf(),
            faults.wf(),
            forall|i: int| 0 <= i < era_id.bonded().len() ==> self@.active.contains_key(#[trigger] era_id.bonded()[i]),
        ensures
            self@.proposal_effects(era_id, proto_block, block_context, *faults, r@),
    {
        let mut effects: Vec<Effect<I>> = Vec::new();
        effects.push(Effect::AnnounceProposedProtoBlock(proto_block.clone()));
        let eras = era_id.iter_bonded();
        let mut faulty: Vec<PublicKey> = Vec::new();
        let mut i: usize = 0;
        while i < eras.len()
            invariant
                i <= eras@.len(),
                faults.wf(),
                faulty@ == accused(*faults, eras@, i as int),
            decreases eras@.len() - i,
        {
            let ghost before = faulty@;
            if let Some(keys) = faults.get(&eras[i]) {
                let mut j: usize = 0;
                assert(faulty@ =~= before + keys@.take(0));
                while j < keys.len()
                    invariant
                        j <= keys@.len(),
                        faulty@ == before + keys@.take(j as int),
                    decreases keys@.len() - j,
                {
                    faulty.push(keys[j]);
                    assert(faulty@ =~= before + keys@.take(j + 1));
                    j += 1;
                }
                assert(keys@.take(keys@.len() as int) =~= keys@);
            } else {
                assert(before + Seq::<PublicKey>::empty() =~= before);
            }
            i += 1;
        }
        let accusations = unique_keys(&faulty);
        let candidate = Rc::new(CandidateBlock::new(proto_block, Rc::new(accusations)));
        let mut more = self.delegate_to_era(era_id, ConsensusCall::Propose { candidate: candidate.clone(), block_context });
        effects.append(&mut more);
        assert(effects@ =~= seq![Effect::<I>::AnnounceProposedProtoBlock(proto_block)] + self@.delegated(
            era_id,
            ConsensusCall::Propose { candidate, block_context },
        ));
        effects
    }

    /// Handles a block that was executed.
    pub fn handle_linear_chain_block<I>(&self, block_header: Rc<BlockHeader>) -> (r: Vec<Effect<I>>)
        requires
            self.wf(),
            block_header.era_id.0 >= self@.current_era.0 && block_header.switch_block ==> block_header.era_id.0 < u64::MAX
                && block_header.height < u64::MAX && self@.active.contains_key(
                SupervisorModel::after_booking(EraId((block_header.era_id.0 + 1) as u64)),
            ),
        ensures
            r@ == self@.chain_block_effects::<I>(block_header),
    {
        let mut effects: Vec<Effect<I>> = Vec::new();
        effects.push(Effect::SignBlock(block_header.clone()));
        if block_header.era_id.0 < self.current_era.0 {
            assert(effects@ =~= seq![Effect::<I>::SignBlock(block_header)]);
            return effects;
        }
        if block_header.switch_block {
            // if the block is a switch block, we have to get the validators for the new era and
            // create it, before we can say we handled the block
            let new_era_id = block_header.era_id.successor();
            let key_block_height = self.key_block_height(new_era_id, block_header.height + 1);
            let booking_block_height = self.booking_block_height(new_era_id);
            effects.push(
                Effect::CreateNewEra {
                    block_header,
                    era_id: new_era_id,
                    protocol_version: ProtocolVersion { major: 1, minor: 0, patch: 0 },
                    booking_block_height,
                    key_block_height,
                },
            );
        } else {
            // if it's not a switch block, we can already declare it handled
            effects.push(Effect::AnnounceBlockHandled(block_header));
        }
        effects
    }

    /// Handles everything that is needed for a new era. Validators whose keys could not be converted
    /// are left out.
    pub fn handle_create_new_era<I>(
        &mut self,
        block_header: Rc<BlockHeader>,
        booking_block_hash: BlockHash,
        key_block_seed: Digest,
        validator_weights: Vec<(Option<PublicKey>, U512)>,
        now: Timestamp,
    ) -> (r: Vec<Effect<I>>)
        requires
            old(self).wf(),
            old(self)@.active.contains_key(old(self)@.current_era),
            block_header.era_id.0 < u64::MAX,
            block_header.height < u64::MAX,
            old(self)@.can_start(
                EraId((block_header.era_id.0 + 1) as u64),
                known_stakes(validator_weights@),
                block_header.timestamp,
            ),
        ensures
            final(self).wf(),
            old(self)@.era_created(
                block_header,
                booking_block_hash,
                key_block_seed,
                validator_weights@,
                now,
                final(self)@,
                r@,
            ),
    {
        let validator_stakes = stakes_of(&validator_weights);
        let mut effects: Vec<Effect<I>> = Vec::new();
        effects.push(Effect::DeactivateValidator(self.current_era));
        let era_id = block_header.era_id.successor();
        let seed = EraSupervisor::era_seed(booking_block_hash, key_block_seed);
        let plan = self.new_era(
            era_id,
            now,
            validator_stakes,
            seed,
            block_header.timestamp,
            block_header.height + 1,
            block_header.state_root_hash,
        );
        let plan = Rc::new(plan);
        effects.push(Effect::StartEra { era_id, plan: plan.clone() });
        effects.push(Effect::AnnounceBlockHandled(block_header));
        assert(old(self)@.is_plan(
            *plan,
            now,
            known_stakes(validator_weights@),
            seed_of(booking_block_hash, key_block_seed) as u64,
            block_header.timestamp,
            (block_header.height + 1) as u64,
            block_header.state_root_hash,
        ));
        assert(effects@ =~= seq![
            Effect::<I>::DeactivateValidator(old(self)@.current_era),
            Effect::<I>::StartEra { era_id: EraId((block_header.era_id.0 + 1) as u64), plan },
            Effect::<I>::AnnounceBlockHandled(block_header),
        ]);
        effects
    }
}

/// What a prefix of the weights adds up to is no more than the whole.
proof fn lemma_weights_prefix(weights: Seq<(PublicKey, u64)>, n: int)
    requires
        0 <= n <= weights.len(),
    ensures
        0 <= weight_sum(weights.take(n)) <= weight_sum(weights),
    decreases weights.len(),
{
    if n == weights.len() {
        assert(weights.take(n) =~= weights);
        if n > 0 {
            lemma_weights_prefix(weights.drop_last(), n - 1);
        }
    } else {
        lemma_weights_prefix(weights.drop_last(), n);
        assert(weights.drop_last().take(n) =~= weights.take(n));
    }
}

/// The outcome of a consensus instance is turned into effects, and into a candidate that waits.
impl SupervisorModel {
    /// The supervisor with other candidates in an era.
    pub open spec fn with_candidates(self, era_id: EraId, candidates: Seq<crate::consensus::era::PendingModel>) -> SupervisorModel {
        SupervisorModel {
            active: self.active.insert(
                era_id,
                crate::consensus::era::EraModel { candidates, ..self.active[era_id] },
            ),
            ..self
        }
    }

    /// The supervisor after a proto block has turned out to be valid: candidates that are complete with
    /// that leave. Nothing changes if the era is not active.
    pub open spec fn with_accepted(self, era_id: EraId, proto_block: crate::types::ProtoBlockModel) -> SupervisorModel {
        if self.active.contains_key(era_id) {
            self.with_candidates(
                era_id,
                self.active[era_id].accepting(proto_block).filter(
                    crate::consensus::era::others(crate::consensus::era::complete()),
                ),
            )
        } else {
            self
        }
    }

    /// What is to be done when a proto block has turned out to be valid: candidates that are complete
    /// with that are valid, and the proto block is announced.
    pub open spec fn accepted_effects<I>(self, era_id: EraId, proto_block: Rc<ProtoBlock>) -> Seq<Effect<I>> {
        if self.active.contains_key(era_id) {
            resolutions::<I>(
                era_id,
                crate::consensus::era::chosen(
                    self.active[era_id].accepting(proto_block@),
                    crate::consensus::era::complete(),
                ),
                true,
            ).push(Effect::AnnounceProposedProtoBlock(proto_block))
        } else {
            Seq::empty()
        }
    }

    /// The supervisor after a proto block has turned out to be invalid: its candidates leave. Nothing
    /// changes if the era is not active.
    pub open spec fn with_rejected(self, era_id: EraId, proto_block: crate::types::ProtoBlockModel) -> SupervisorModel {
        if self.active.contains_key(era_id) {
            self.with_candidates(
                era_id,
                self.active[era_id].candidates.filter(
                    crate::consensus::era::others(crate::consensus::era::candidate_for(proto_block)),
                ),
            )
        } else {
            self
        }
    }

    /// What is to be done when a proto block has turned out to be invalid: its candidates are so too.
    pub open spec fn rejected_effects<I>(self, era_id: EraId, proto_block: crate::types::ProtoBlockModel) -> Seq<Effect<I>> {
        if self.active.contains_key(era_id) {
            resolutions::<I>(
                era_id,
                crate::consensus::era::chosen(
                    self.active[era_id].candidates,
                    crate::consensus::era::candidate_for(proto_block),
                ),
                false,
            )
        } else {
            Seq::empty()
        }
    }

    /// The supervisor after evidence against a validator was brought to one era.
    pub open spec fn evidence_resolved(self, era_id: EraId, key: PublicKey) -> SupervisorModel {
        if self.active.contains_key(era_id) {
            self.with_candidates(
                era_id,
                self.active[era_id].resolved(key).filter(
                    crate::consensus::era::others(crate::consensus::era::complete()),
                ),
            )
        } else {
            self
        }
    }

    /// What follows from evidence against a validator in one era, and in those after it up to the
    /// last.
    pub open spec fn evidence_effects<I>(self, era_id: EraId, last: EraId, pub_key: PublicKey) -> Seq<Effect<I>> {
        (if self.active.contains_key(era_id) {
            resolutions(
                era_id,
                crate::consensus::era::chosen(
                    self.active[era_id].resolved(pub_key),
                    crate::consensus::era::complete(),
                ),
                true,
            )
        } else {
            Seq::empty()
        }) + (if era_id.0 < last.0 {
            seq![Effect::ResolveEvidence { era_id: EraId((era_id.0 + 1) as u64), last, pub_key }]
        } else {
            Seq::empty()
        })
    }

    /// The finalized block, as other components see it.
    pub open spec fn finalized(self, era_id: EraId, block: CpFinalizedBlock) -> FinalizedBlock {
        FinalizedBlock {
            proto_block: block.value.proto_block,
            timestamp: block.timestamp,
            era_end: match block.rewards {
                Some(rewards) => Some(EraEnd { equivocators: block.value.accusations, rewards }),
                None => None,
            },
            era_id,
            height: (self.active[era_id].start_height + block.height) as u64,
            proposer: block.proposer,
        }
    }

    /// The result can be handled.
    pub open spec fn can_handle<I>(self, era_id: EraId, result: ConsensusProtocolResult<I>, evidence: EraEvidence) -> bool {
        match result {
            ConsensusProtocolResult::FinalizedBlock(block) => self.active.contains_key(era_id)
                && self.active[era_id].start_height + block.height <= u64::MAX,
            ConsensusProtocolResult::ValidateConsensusValue(_, candidate) => forall|i: int|
                0 <= i < candidate.accusations@.len() ==> can_ask(
                    self.active,
                    evidence,
                    era_id,
                    #[trigger] candidate.accusations@[i],
                ),
            ConsensusProtocolResult::NewEvidence(_) => era_id.0 + BONDED_ERAS <= u64::MAX,
            _ => true,
        }
    }

    /// The supervisor after a result was handled.
    pub open spec fn after_result<I>(self, era_id: EraId, result: ConsensusProtocolResult<I>, evidence: EraEvidence) -> SupervisorModel {
        match result {
            ConsensusProtocolResult::ValidateConsensusValue(_, candidate) => if self.active.contains_key(era_id) {
                self.with_candidates(
                    era_id,
                    self.active[era_id].candidates.push(
                        crate::consensus::era::PendingModel {
                            candidate,
                            validated: false,
                            missing: candidate.accusations@.filter(unknown(evidence, era_id)),
                        },
                    ),
                )
            } else {
                self
            },
            ConsensusProtocolResult::NewEvidence(key) => self.evidence_resolved(era_id, key),
            _ => self,
        }
    }

    /// The effects are those of a result.
    pub open spec fn result_effects<I>(
        self,
        era_id: EraId,
        result: ConsensusProtocolResult<I>,
        evidence: EraEvidence,
        now: Timestamp,
        random_bit: bool,
        effects: Seq<Effect<I>>,
    ) -> bool {
        match result {
            ConsensusProtocolResult::InvalidIncomingMessage(_, _) => effects == Seq::<Effect<I>>::empty(),
            ConsensusProtocolResult::CreatedGossipMessage(payload) => effects == seq![
                Effect::<I>::Broadcast(ConsensusMessage::Protocol { era_id, payload }),
            ],
            ConsensusProtocolResult::CreatedTargetedMessage(payload, to) => effects == seq![
                Effect::<I>::Send(to, ConsensusMessage::Protocol { era_id, payload }),
            ],
            ConsensusProtocolResult::ScheduleTimer(timestamp) => effects == seq![
                Effect::<I>::SetTimeout {
                    era_id,
                    timestamp,
                    delay: TimeDiff(
                        (if timestamp.0 >= now.0 {
                            timestamp.0 - now.0
                        } else {
                            0
                        }) as u64,
                    ),
                },
            ],
            ConsensusProtocolResult::CreateNewBlock { block_context } => effects == seq![
                Effect::<I>::RequestProtoBlock { era_id, block_context, random_bit },
            ],
            ConsensusProtocolResult::FinalizedBlock(block) => {
                &&& effects.len() == 2
                &&& effects[0] matches Effect::AnnounceFinalizedBlock(announced)
                &&& *announced == self.finalized(era_id, block)
                &&& effects[1] == Effect::<I>::ExecuteBlock(announced)
            },
            ConsensusProtocolResult::ValidateConsensusValue(sender, candidate) => effects == evidence_wanted(
                era_id,
                sender,
                candidate.accusations@.filter(unknown(evidence, era_id)),
            ) + (if self.active.contains_key(era_id) {
                seq![Effect::<I>::ValidateBlock { era_id, sender, proto_block: candidate.proto_block }]
            } else {
                Seq::empty()
            }),
            ConsensusProtocolResult::NewEvidence(key) => effects == self.evidence_effects::<I>(
                era_id,
                EraId((era_id.0 + BONDED_ERAS) as u64),
                key,
            ),
        }
    }
}

/// Calls `rand::Rng::gen` for a `bool`: either value may come.
#[verifier::external_body]
fn gen_bool(rng: &mut StdRng) -> (r: bool) {
    rand::Rng::gen(rng)
}

/// Returns the effects that tell a consensus instance whether candidates are valid.
fn candidate_effects<I>(era_id: EraId, candidates: Vec<Rc<CandidateBlock>>, valid: bool) -> (r: Vec<Effect<I>>)
    ensures
        r@ == resolutions::<I>(era_id, candidates@, valid),
{
    let mut effects: Vec<Effect<I>> = Vec::new();
    let mut i: usize = 0;
    while i < candidates.len()
        invariant
            i <= candidates@.len(),
            effects@ == resolutions::<I>(era_id, candidates@, valid).take(i as int),
        decreases candidates@.len() - i,
    {
        let candidate = candidates[i].clone();
        effects.push(Effect::CallConsensus { era_id, call: ConsensusCall::ResolveValidity { candidate, valid } });
        assert(effects@ =~= resolutions::<I>(era_id, candidates@, valid).take(i + 1));
        i += 1;
    }
    assert(effects@ =~= resolutions::<I>(era_id, candidates@, valid));
    effects
}

impl EraSupervisor {
    /// Handles the news that a proto block is valid.
    pub fn handle_accept_proto_block<I>(&mut self, era_id: EraId, proto_block: Rc<ProtoBlock>) -> (r: Vec<Effect<I>>)
        requires
            old(self).wf(),
        ensures
            final(self).wf(),
            final(self)@ == old(self)@.with_accepted(era_id, proto_block@),
            r@ == old(self)@.accepted_effects::<I>(era_id, proto_block),
    {
        let ghost pre = self@;
        let candidates = match self.active_eras.get_mut(&era_id) {
            Some(era) => era.accept_proto_block(&proto_block),
            None => {
                assert(self@.active =~= pre.active);
                return Vec::new();
            },
        };
        proof {
            assert(self@.active =~= pre.with_candidates(
                era_id,
                pre.active[era_id].accepting(proto_block@).filter(
                    crate::consensus::era::others(crate::consensus::era::complete()),
                ),
            ).active);
        }
        let mut effects = candidate_effects(era_id, candidates, true);
        effects.push(Effect::AnnounceProposedProtoBlock(proto_block));
        effects
    }

    /// Handles the news that a proto block is invalid.
    pub fn handle_invalid_proto_block<I>(&mut self, era_id: EraId, _sender: I, proto_block: Rc<ProtoBlock>) -> (r: Vec<
        Effect<I>,
    >)
        requires
            old(self).wf(),
        ensures
            final(self).wf(),
            final(self)@ == old(self)@.with_rejected(era_id, proto_block@),
            r@ == old(self)@.rejected_effects::<I>(era_id, proto_block@),
    {
        let ghost pre = self@;
        let candidates = match self.active_eras.get_mut(&era_id) {
            Some(era) => era.reject_proto_block(&proto_block),
            None => {
                assert(self@.active =~= pre.active);
                return Vec::new();
            },
        };
        proof {
            assert(self@.active =~= pre.with_candidates(
                era_id,
                pre.active[era_id].candidates.filter(
                    crate::consensus::era::others(crate::consensus::era::candidate_for(proto_block@)),
                ),
            ).active);
        }
        candidate_effects(era_id, candidates, false)
    }

    /// Handles the outcome of validating a proto block that came from `sender`.
    pub fn handle_validated<I>(&mut self, era_id: EraId, sender: I, proto_block: Rc<ProtoBlock>, valid: bool) -> (r: Vec<
        Effect<I>,
    >)
        requires
            old(self).wf(),
        ensures
            final(self).wf(),
            final(self)@ == if valid {
                old(self)@.with_accepted(era_id, proto_block@)
            } else {
                old(self)@.with_rejected(era_id, proto_block@)
            },
            r@ == if valid {
                old(self)@.accepted_effects::<I>(era_id, proto_block)
            } else {
                old(self)@.rejected_effects::<I>(era_id, proto_block@)
            },
    {
        if valid {
            self.handle_accept_proto_block(era_id, proto_block)
        } else {
            self.handle_invalid_proto_block(era_id, sender, proto_block)
        }
    }

    /// Returns `true` if any of the most recent eras has evidence against the validator with key
    /// `pub_key`.
    pub fn has_evidence(&self, era_id: EraId, pub_key: PublicKey, evidence: &EraEvidence) -> (r: bool)
        requires
            self.wf(),
            evidence.wf(),
            can_ask(self@.active, *evidence, era_id, pub_key),
        ensures
            r == evidence_known(*evidence, era_id, pub_key),
    {
        let eras = era_id.iter_bonded();
        let mut i: usize = 0;
        while i < eras.len()
            invariant
                i <= eras@.len(),
                eras@ == era_id.bonded(),
                evidence.wf(),
                forall|j: int| 0 <= j < i ==> !known_in(*evidence, #[trigger] era_id.bonded()[j], pub_key),
            decreases eras@.len() - i,
        {
            if let Some(keys) = evidence.get(&eras[i]) {
                if contains_key(keys, &pub_key) {
                    assert(known_in(*evidence, era_id.bonded()[i as int], pub_key));
                    return true;
                }
            }
            i += 1;
        }
        false
    }

    /// Brings evidence against a validator to one era, and has it brought to those after it up to
    /// the last.
    pub fn resolve_evidence<I>(&mut self, era_id: EraId, last: EraId, pub_key: PublicKey) -> (r: Vec<Effect<I>>)
        requires
            old(self).wf(),
        ensures
            final(self).wf(),
            final(self)@ == old(self)@.evidence_resolved(era_id, pub_key),
            r@ == old(self)@.evidence_effects::<I>(era_id, last, pub_key),
    {
        let ghost pre = self@;
        let candidates = match self.active_eras.get_mut(&era_id) {
            Some(era) => era.resolve_evidence(&pub_key),
            None => Vec::new(),
        };
        assert(self@.active =~= pre.evidence_resolved(era_id, pub_key).active);
        let mut effects = candidate_effects(era_id, candidates, true);
        assert(!pre.active.contains_key(era_id) ==> effects@ =~= Seq::empty());
        if era_id.0 < last.0 {
            effects.push(Effect::ResolveEvidence { era_id: EraId(era_id.0 + 1), last, pub_key });
        }
        assert(effects@ =~= pre.evidence_effects::<I>(era_id, last, pub_key));
        effects
    }

    /// Returns whether the eras that have to be asked for evidence, up to the first one that has it,
    /// are active.
    fn can_ask_for_evidence(&self, era_id: EraId, pub_key: PublicKey, evidence: &EraEvidence) -> (r: bool)
        requires
            self.wf(),
            evidence.wf(),
        ensures
            r == can_ask(self@.active, *evidence, era_id, pub_key),
    {
        let eras = era_id.iter_bonded();
        let mut i: usize = 0;
        while i < eras.len()
            invariant
                i <= eras@.len(),
                eras@ == era_id.bonded(),
                self.wf(),
                evidence.wf(),
                forall|j: int| 0 <= j < i ==> !known_in(*evidence, #[trigger] era_id.bonded()[j], pub_key),
                forall|j: int| 0 <= j < i ==> self@.active.contains_key(#[trigger] era_id.bonded()[j]),
            decreases eras@.len() - i,
        {
            let active = self.is_active(eras[i]);
            if !active {
                assert(!self@.active.contains_key(era_id.bonded()[i as int]));
                return false;
            }
            if let Some(keys) = evidence.get(&eras[i]) {
                if contains_key(keys, &pub_key) {
                    assert(known_in(*evidence, era_id.bonded()[i as int], pub_key));
                    return true;
                }
            }
            i += 1;
        }
        true
    }

    /// Returns whether a result of a consensus instance can be handled.
    pub fn can_handle_result<I>(&self, era_id: EraId, result: &ConsensusProtocolResult<I>, evidence: &EraEvidence) -> (r: bool)
        requires
            self.wf(),
            evidence.wf(),
        ensures
            r == self@.can_handle(era_id, *result, *evidence),
    {
        match result {
            ConsensusProtocolResult::FinalizedBlock(block) => match self.active_eras.get(&era_id) {
                Some(era) => era.start_height().checked_add(block.height).is_some(),
                None => false,
            },
            ConsensusProtocolResult::ValidateConsensusValue(_, candidate) => {
                let mut i: usize = 0;
                while i < candidate.accusations.len()
                    invariant
                        i <= candidate.accusations@.len(),
                        *result matches ConsensusProtocolResult::ValidateConsensusValue(_, c) && c == *candidate,
                        self.wf(),
                        evidence.wf(),
                        forall|j: int|
                            0 <= j < i ==> can_ask(self@.active, *evidence, era_id, #[trigger] candidate.accusations@[j]),
                    decreases candidate.accusations@.len() - i,
                {
                    let key = candidate.accusations[i];
                    if !self.can_ask_for_evidence(era_id, key, evidence) {
                        assert(!can_ask(self@.active, *evidence, era_id, candidate.accusations@[i as int]));
                        return false;
                    }
                    i += 1;
                }
                true
            },
            ConsensusProtocolResult::NewEvidence(_) => era_id.0.checked_add(BONDED_ERAS).is_some(),
            _ => true,
        }
    }

    /// Returns the accused validators against whom no evidence is known.
    fn missing_evidence(&self, era_id: EraId, accusations: &Vec<PublicKey>, evidence: &EraEvidence) -> (r: Vec<PublicKey>)
        requires
            self.wf(),
            evidence.wf(),
            forall|i: int|
                0 <= i < accusations@.len() ==> can_ask(self@.active, *evidence, era_id, #[trigger] accusations@[i]),
        ensures
            r@ == accusations@.filter(unknown(*evidence, era_id)),
    {
        let mut missing: Vec<PublicKey> = Vec::new();
        let ghost p = unknown(*evidence, era_id);
        let mut i: usize = 0;
        assert(accusations@.take(0).filter(p) =~= Seq::empty()) by {
            reveal(Seq::filter);
        }
        while i < accusations.len()
            invariant
                i <= accusations@.len(),
                self.wf(),
                evidence.wf(),
                p == unknown(*evidence, era_id),
                forall|j: int|
                    0 <= j < accusations@.len() ==> can_ask(self@.active, *evidence, era_id, #[trigger] accusations@[j]),
                missing@ == accusations@.take(i as int).filter(p),
            decreases accusations@.len() - i,
        {
            let key = accusations[i];
            proof {
                accusations@.take(i as int).lemma_filter_push(key, p);
                assert(accusations@.take(i as int).push(key) =~= accusations@.take(i + 1));
            }
            if !self.has_evidence(era_id, key, evidence) {
                missing.push(key);
            }
            i += 1;
        }
        assert(accusations@.take(accusations@.len() as int) =~= accusations@);
        missing
    }

    /// Handles a result of a consensus instance, at the given time and with the given random bit for
    /// a new block.
    pub fn handle_result_at<I: Copy>(
        &mut self,
        era_id: EraId,
        result: ConsensusProtocolResult<I>,
        evidence: &EraEvidence,
        now: Timestamp,
        random_bit: bool,
    ) -> (r: Vec<Effect<I>>)
        requires
            old(self).wf(),
            evidence.wf(),
            old(self)@.can_handle(era_id, result, *evidence),
        ensures
            final(self).wf(),
            final(self)@ == old(self)@.after_result(era_id, result, *evidence),
            old(self)@.result_effects(era_id, result, *evidence, now, random_bit, r@),
            result matches ConsensusProtocolResult::FinalizedBlock(block) ==> (r@[0] matches Effect::AnnounceFinalizedBlock(b)
                && b.height == old(self)@.active[era_id].start_height + block.height && r@[1] == Effect::<I>::ExecuteBlock(b)),
    {
        let ghost pre = self@;
        let mut effects: Vec<Effect<I>> = Vec::new();
        match result {
            ConsensusProtocolResult::InvalidIncomingMessage(_, _) => {},
            ConsensusProtocolResult::CreatedGossipMessage(payload) => {
                effects.push(Effect::Broadcast(era_id.message(payload)));
                assert(effects@ =~= seq![effects@[0]]);
            },
            ConsensusProtocolResult::CreatedTargetedMessage(payload, to) => {
                effects.push(Effect::Send(to, era_id.message(payload)));
                assert(effects@ =~= seq![effects@[0]]);
            },
            ConsensusProtocolResult::ScheduleTimer(timestamp) => {
                let delay = timestamp.saturating_sub(now);
                effects.push(Effect::SetTimeout { era_id, timestamp, delay });
                assert(effects@ =~= seq![effects@[0]]);
            },
            ConsensusProtocolResult::CreateNewBlock { block_context } => {
                effects.push(Effect::RequestProtoBlock { era_id, block_context, random_bit });
                assert(effects@ =~= seq![effects@[0]]);
            },
            ConsensusProtocolResult::FinalizedBlock(block) => {
                let start_height = match self.active_eras.get(&era_id) {
                    Some(era) => era.start_height(),
                    None => 0,
                };
                let CpFinalizedBlock { value, timestamp, height, rewards, proposer } = block;
                let era_end = match rewards {
                    Some(rewards) => Some(EraEnd { equivocators: value.accusations.clone(), rewards }),
                    None => None,
                };
                let finalized_block = Rc::new(
                    FinalizedBlock {
                        proto_block: value.proto_block.clone(),
                        timestamp,
                        era_end,
                        era_id,
                        height: start_height + height,
                        proposer,
                    },
                );
                // Announce the finalized proto block.
                effects.push(Effect::AnnounceFinalizedBlock(finalized_block.clone()));
                // Request execution of the finalized block.
                effects.push(Effect::ExecuteBlock(finalized_block));
            },
            ConsensusProtocolResult::ValidateConsensusValue(sender, candidate) => {
                let proto_block = candidate.proto_block.clone();
                let missing_evidence = self.missing_evidence(era_id, &candidate.accusations, evidence);
                let ghost wanted = evidence_wanted::<I>(era_id, sender, missing_evidence@);
                let mut i: usize = 0;
                while i < missing_evidence.len()
                    invariant
                        i <= missing_evidence@.len(),
                        wanted == evidence_wanted::<I>(era_id, sender, missing_evidence@),
                        effects@ == wanted.take(i as int),
                    decreases missing_evidence@.len() - i,
                {
                    let pub_key = missing_evidence[i];
                    effects.push(Effect::Send(sender, ConsensusMessage::EvidenceRequest { era_id, pub_key }));
                    assert(effects@ =~= wanted.take(i + 1));
                    i += 1;
                }
                assert(wanted.take(wanted.len() as int) =~= wanted);
                match self.active_eras.get_mut(&era_id) {
                    Some(era) => {
                        era.add_candidate(candidate, missing_evidence);
                        effects.push(Effect::ValidateBlock { era_id, sender, proto_block });
                        assert(effects@ =~= wanted + seq![effects@.last()]);
                    },
                    None => {
                        assert(effects@ =~= wanted + Seq::<Effect<I>>::empty());
                    },
                }
                assert(self@.active =~= pre.after_result(era_id, result, *evidence).active);
            },
            ConsensusProtocolResult::NewEvidence(pub_key) => {
                return self.resolve_evidence(era_id, EraId(era_id.0 + BONDED_ERAS), pub_key);
            },
        }
        effects
    }

    /// Handles a result of a consensus instance at the given time.
    pub fn handle_consensus_result<I: Copy>(
        &mut self,
        era_id: EraId,
        result: ConsensusProtocolResult<I>,
        evidence: &EraEvidence,
        now: Timestamp,
        rng: &mut StdRng,
    ) -> (r: Vec<Effect<I>>)
        requires
            old(self).wf(),
            evidence.wf(),
            old(self)@.can_handle(era_id, result, *evidence),
        ensures
            final(self).wf(),
            final(self)@ == old(self)@.after_result(era_id, result, *evidence),
            exists|random_bit: bool| #[trigger]
                old(self)@.result_effects(era_id, result, *evidence, now, random_bit, r@),
    {
        let random_bit = match &result {
            ConsensusProtocolResult::CreateNewBlock { .. } => gen_bool(rng),
            _ => false,
        };
        self.handle_result_at(era_id, result, evidence, now, random_bit)
    }
}

/// A new era ends no other one but the one that has become obsolete: the eras that bonded eras can
/// refer to stay.
pub proof fn law_needed_eras_stay(s: SupervisorModel, era_id: EraId, start_height: u64, other: EraId)
    requires
        s.active.contains_key(other),
        other.0 + 2 * BONDED_ERAS >= era_id.0,
        other != era_id,
    ensures
        s.with_era(era_id, start_height).active.contains_key(other),
        s.with_era(era_id, start_height).active[other] == s.active[other],
{
}

/// Candidates wait for evidence only as long as they have to: once evidence against a validator was
/// brought to an era, no candidate of that era waits for it any more.
pub proof fn law_no_wait_for_known_evidence(s: SupervisorModel, era_id: EraId, key: PublicKey, i: int)
    requires
        s.active.contains_key(era_id),
        0 <= i < s.evidence_resolved(era_id, key).active[era_id].candidates.len(),
    ensures
        !s.evidence_resolved(era_id, key).active[era_id].candidates[i].missing.contains(key),
{
    broadcast use vstd::seq_lib::group_filter_ensures;

    let resolved = s.active[era_id].resolved(key);
    let kept = resolved.filter(crate::consensus::era::others(crate::consensus::era::complete()));
    let c = kept[i];
    assert(kept.contains(c));
    resolved.lemma_filter_contains_rev(crate::consensus::era::others(crate::consensus::era::complete()), c);
    let j = resolved.index_of(c);
    assert(resolved[j] == c);
    let before = s.active[era_id].candidates[j];
    assert(c == before.without(key));
    let left = before.missing.filter(crate::consensus::era::is_not(key));
    assert(!left.contains(key)) by {
        if left.contains(key) {
            let k = left.index_of(key);
            assert(left[k] == key);
        }
    }
}

} // verus!
