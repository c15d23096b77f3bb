//! What becomes of eras, of their blocks and of candidates for them.

use crate::consensus::BlockContext;
use crate::consensus::era::{CandidateBlock, ConsensusMessage};
use crate::consensus::era_supervisor::{
    ConsensusCall, ConsensusProtocolResult, CpFinalizedBlock, Effect, EraEvidence, EraFaults, EraPlan,
};
use crate::hash::{BlockHash, Digest};
use crate::keys::PublicKey;
use crate::timestamp::Timestamp;
use crate::types::{BlockHeader, EraId, ProtoBlock};
use crate::uint::U512;
use std::rc::Rc;
use vstd::arithmetic::power2::pow2;
use vstd::prelude::*;

verus! {

/// A block that an era finalizes, at some height within the era, is announced and executed, as the same
/// block, with a height that is the era's first height plus that, and with the era, proto block, time and
/// proposer that were agreed on. It ends the era exactly if there are rewards, and then names all who were
/// accused.
pub proof fn law_finalized_block_height<I>(
    m: crate::consensus::era_supervisor::SupervisorModel,
    era_id: EraId,
    block: CpFinalizedBlock,
    evidence: EraEvidence,
    now: Timestamp,
    random_bit: bool,
    effects: Seq<Effect<I>>,
)
    requires
        m.can_handle(era_id, ConsensusProtocolResult::<I>::FinalizedBlock(block), evidence),
        m.result_effects(
            era_id,
            ConsensusProtocolResult::<I>::FinalizedBlock(block),
            evidence,
            now,
            random_bit,
            effects,
        ),
    ensures
        effects.len() == 2,
        effects[0] matches Effect::AnnounceFinalizedBlock(b) && {
            &&& effects[1] == Effect::<I>::ExecuteBlock(b)
            &&& b.height == m.active[era_id].start_height + block.height
            &&& b.era_id == era_id
            &&& b.proto_block == block.value.proto_block
            &&& b.timestamp == block.timestamp
            &&& b.proposer == block.proposer
            &&& match (b.era_end, block.rewards) {
                (Some(end), Some(rewards)) => end.rewards == rewards && end.equivocators == block.value.accusations,
                (None, None) => true,
                _ => false,
            }
        },
        m.after_result(era_id, ConsensusProtocolResult::<I>::FinalizedBlock(block), evidence) == m,
{
}

/// The first block of an era has the height behind that of the switch block before it, and every further
/// one the next height.
pub proof fn law_first_block_follows_the_switch_block<I>(
    m: crate::consensus::era_supervisor::SupervisorModel,
    switch_block: Rc<BlockHeader>,
    booking_block_hash: BlockHash,
    key_block_seed: Digest,
    validator_weights: Seq<(Option<PublicKey>, U512)>,
    then: Timestamp,
    after: crate::consensus::era_supervisor::SupervisorModel,
    start: Seq<Effect<I>>,
    block: CpFinalizedBlock,
    evidence: EraEvidence,
    now: Timestamp,
    random_bit: bool,
    effects: Seq<Effect<I>>,
)
    requires
        switch_block.era_id.0 < u64::MAX,
        switch_block.height < u64::MAX,
        m.era_created(switch_block, booking_block_hash, key_block_seed, validator_weights, then, after, start),
        after.can_handle(
            EraId((switch_block.era_id.0 + 1) as u64),
            ConsensusProtocolResult::<I>::FinalizedBlock(block),
            evidence,
        ),
        after.result_effects(
            EraId((switch_block.era_id.0 + 1) as u64),
            ConsensusProtocolResult::<I>::FinalizedBlock(block),
            evidence,
            now,
            random_bit,
            effects,
        ),
    ensures
        effects[0] matches Effect::AnnounceFinalizedBlock(b) && {
            &&& b.era_id.0 == switch_block.era_id.0 + 1
            &&& b.height == switch_block.height + 1 + block.height
            &&& block.height == 0 ==> b.height == switch_block.height + 1
        },
{
    law_finalized_block_height(
        after,
        EraId((switch_block.era_id.0 + 1) as u64),
        block,
        evidence,
        now,
        random_bit,
        effects,
    );
}

/// The era behind a switch block is the current one, and starts empty, behind that block. All other eras
/// stay as they are, but for the one twenty-three eras back, which is dropped. The validator of the era
/// before is deactivated, and the block counts as handled.
pub proof fn law_new_era_is_the_current_one<I>(
    m: crate::consensus::era_supervisor::SupervisorModel,
    switch_block: Rc<BlockHeader>,
    booking_block_hash: BlockHash,
    key_block_seed: Digest,
    validator_weights: Seq<(Option<PublicKey>, U512)>,
    now: Timestamp,
    after: crate::consensus::era_supervisor::SupervisorModel,
    effects: Seq<Effect<I>>,
    other: EraId,
)
    requires
        switch_block.era_id.0 < u64::MAX,
        switch_block.height < u64::MAX,
        m.era_created(switch_block, booking_block_hash, key_block_seed, validator_weights, now, after, effects),
    ensures
        ({
            let new = EraId((switch_block.era_id.0 + 1) as u64);
            &&& after.current_era == new
            &&& after.active.contains_key(new)
            &&& after.active[new].start_height == switch_block.height + 1
            &&& after.active[new].candidates.len() == 0
            &&& other != new ==> after.active.contains_key(other) == (m.active.contains_key(other) && other.0 + 23 != new.0)
            &&& other != new && after.active.contains_key(other) ==> after.active[other] == m.active[other]
            &&& after.public_signing_key == m.public_signing_key
            &&& after.chainspec == m.chainspec
            &&& after.node_start_time == m.node_start_time
            &&& effects.len() == 3
            &&& effects[0] == Effect::<I>::DeactivateValidator(m.current_era)
            &&& effects[1] matches Effect::StartEra { era_id, .. } && era_id == new
            &&& effects[2] == Effect::<I>::AnnounceBlockHandled(switch_block)
        }),
{
}

/// The sum of the stakes.
pub open spec fn sum_of_stakes(stakes: Seq<(PublicKey, U512)>) -> int {
    stakes.fold_left(0int, |a: int, s: (PublicKey, U512)| a + s.1@)
}

/// The sum of the weights.
pub open spec fn sum_of_weights(weights: Seq<(PublicKey, u64)>) -> int {
    weights.fold_left(0int, |a: int, w: (PublicKey, u64)| a + w.1)
}

proof fn lemma_stakes(stakes: Seq<(PublicKey, U512)>)
    ensures
        crate::consensus::era_supervisor::stake_sum(stakes) == sum_of_stakes(stakes),
    decreases stakes.len(),
{
    if stakes.len() > 0 {
        lemma_stakes(stakes.drop_last());
    }
}

proof fn lemma_weights(weights: Seq<(PublicKey, u64)>)
    ensures
        crate::consensus::era_supervisor::weight_sum(weights) == sum_of_weights(weights),
    decreases weights.len(),
{
    if weights.len() > 0 {
        lemma_weights(weights.drop_last());
    }
}

/// The stakes whose owners are known, in order.
pub open spec fn with_owner(weights: Seq<(Option<PublicKey>, U512)>) -> Seq<(PublicKey, U512)> {
    weights.filter(|w: (Option<PublicKey>, U512)| w.0 is Some).map_values(|w: (Option<PublicKey>, U512)| (w.0->0, w.1))
}

proof fn lemma_with_owner(weights: Seq<(Option<PublicKey>, U512)>)
    ensures
        crate::consensus::era_supervisor::known_stakes(weights) == with_owner(weights),
    decreases weights.len(),
{
    reveal(Seq::filter);
    let p = |w: (Option<PublicKey>, U512)| w.0 is Some;
    let f = |w: (Option<PublicKey>, U512)| (w.0->0, w.1);
    if weights.len() > 0 {
        lemma_with_owner(weights.drop_last());
        let front = weights.drop_last().filter(p);
        if weights.last().0 is Some {
            assert(front.push(weights.last()).map_values(f) =~= front.map_values(f).push(f(weights.last())));
        }
    } else {
        assert(weights.filter(p).map_values(f) =~= Seq::<(PublicKey, U512)>::empty());
    }
}

/// A new era's validators are all owners of stakes who are known, in order, each with the stake divided by
/// one common factor and rounded down. The factor is the smallest with which all stakes together fit in
/// sixty-four bits.
pub proof fn law_weights_are_scaled_stakes(
    m: crate::consensus::era_supervisor::SupervisorModel,
    plan: EraPlan,
    now: Timestamp,
    stakes: Seq<(PublicKey, U512)>,
    seed: u64,
    start_time: Timestamp,
    start_height: u64,
    post_state_hash: Digest,
) -> (factor: int)
    requires
        sum_of_stakes(stakes) > 0,
        m.is_plan(plan, now, stakes, seed, start_time, start_height, post_state_hash),
    ensures
        factor > 0,
        sum_of_stakes(stakes) <= factor * u64::MAX,
        (factor - 1) * u64::MAX < sum_of_stakes(stakes),
        plan.validators@.len() == stakes.len(),
        forall|i: int|
            0 <= i < stakes.len() ==> (#[trigger] plan.validators@[i]).0 == stakes[i].0 && plan.validators@[i].1 * factor
                <= stakes[i].1@ < (plan.validators@[i].1 + 1) * factor,
        sum_of_stakes(stakes) <= u64::MAX ==> forall|i: int|
            0 <= i < stakes.len() ==> (#[trigger] plan.validators@[i]).1 == stakes[i].1@,
{
    lemma_stakes(stakes);
    let sum = sum_of_stakes(stakes);
    let factor = crate::consensus::era_supervisor::scaling_factor(sum);
    crate::consensus::era_supervisor::lemma_factor(sum);
    assert((factor - 1) * u64::MAX < sum) by (nonlinear_arith)
        requires
            factor == (sum + u64::MAX - 1) / (u64::MAX as int),
    ;
    assert(sum <= u64::MAX ==> factor == 1) by (nonlinear_arith)
        requires
            factor == (sum + u64::MAX - 1) / (u64::MAX as int),
            sum > 0,
    ;
    assert forall|i: int| 0 <= i < stakes.len() implies (#[trigger] plan.validators@[i]).0 == stakes[i].0 && plan.validators@[i].1
        * factor <= stakes[i].1@ < (plan.validators@[i].1 + 1) * factor && (factor == 1 ==> plan.validators@[i].1 == stakes[i].1@) by {
        crate::consensus::era_supervisor::lemma_one_scaled(stakes, factor, i);
        let stake = stakes[i].1@;
        let w = stake / factor;
        assert(w * factor <= stake < (w + 1) * factor) by (nonlinear_arith)
            requires
                w == stake / factor,
                factor > 0,
        ;
    }
    factor
}

/// The other parameters of a new era. Its fault tolerance is that percentage of all weight, rounded down,
/// that the configuration names. It is taken part in exactly if this node was up before the era began,
/// the era cannot be over yet, and this node is one of the validators, and then from now on or, if it
/// begins later, from its beginning.
pub proof fn law_plan_follows_the_configuration(
    m: crate::consensus::era_supervisor::SupervisorModel,
    plan: EraPlan,
    now: Timestamp,
    stakes: Seq<(PublicKey, U512)>,
    seed: u64,
    start_time: Timestamp,
    start_height: u64,
    post_state_hash: Digest,
)
    requires
        crate::consensus::era_supervisor::startable(m.chainspec.genesis.highway_config, stakes, start_time),
        m.is_plan(plan, now, stakes, seed, start_time, start_height, post_state_hash),
    ensures
        ({
            let config = m.chainspec.genesis.highway_config;
            let all = sum_of_weights(plan.validators@) * config.finality_threshold_percent;
            let rounds = pow2(config.minimum_round_exponent as nat) * config.minimum_era_height;
            let member = exists|i: int| 0 <= i < plan.validators@.len() && (#[trigger] plan.validators@[i]).0 == m.public_signing_key;
            let lasts = now.0 <= start_time.0 + config.era_duration.0 || now.0 <= start_time.0 + rounds;
            &&& plan.ftt * 100 <= all < (plan.ftt + 1) * 100
            &&& plan.instance_id.0@ == crate::hash::blake2b_256(
                crate::consensus::era_supervisor::instance_bytes(m.chainspec, post_state_hash, start_height),
            )
            &&& plan.params.spec_seed() == seed
            &&& plan.params.spec_start_timestamp() == start_time
            &&& plan.params.spec_end_timestamp().0 == start_time.0 + config.era_duration.0
            &&& plan.params.spec_end_height() == config.minimum_era_height
            &&& plan.params.spec_min_round_exp() == config.minimum_round_exponent
            &&& plan.params.spec_block_reward() == 1_000_000_000_000
            &&& plan.params.spec_reduced_block_reward() == 200_000_000_000
            &&& plan.activate_at is Some == (m.node_start_time.0 < start_time.0 && lasts && member)
            &&& plan.activate_at matches Some(at) ==> at.0 >= now.0 && at.0 >= start_time.0 && (at.0 == now.0 || at.0 == start_time.0)
        }),
{
    let config = m.chainspec.genesis.highway_config;
    lemma_weights(plan.validators@);
    crate::consensus::highway::state::Params::lemma_of(
        seed,
        crate::consensus::era_supervisor::BLOCK_REWARD,
        crate::consensus::era_supervisor::BLOCK_REWARD / 5,
        config.minimum_round_exponent,
        config.minimum_era_height,
        start_time,
        Timestamp((start_time.0 + config.era_duration.0) as u64),
    );
}

/// What an era behind a switch block is begun with: the owners' stakes that came with it, its state and
/// time, and a seed that is the first eight bytes, the lowest first, of the hash of the booking block's
/// hash and the key block's seed.
pub proof fn law_era_begun_from_the_switch_block<I>(
    m: crate::consensus::era_supervisor::SupervisorModel,
    switch_block: Rc<BlockHeader>,
    booking_block_hash: BlockHash,
    key_block_seed: Digest,
    validator_weights: Seq<(Option<PublicKey>, U512)>,
    now: Timestamp,
    after: crate::consensus::era_supervisor::SupervisorModel,
    effects: Seq<Effect<I>>,
    seed: u64,
)
    requires
        m.era_created(switch_block, booking_block_hash, key_block_seed, validator_weights, now, after, effects),
        switch_block.height < u64::MAX,
        ({
            let h = crate::hash::blake2b_256(booking_block_hash.0@ + key_block_seed.0@);
            h.len() >= 8 && seed == h[0] + 256 * (h[1] + 256 * (h[2] + 256 * (h[3] + 256 * (h[4] + 256 * (h[5] + 256 * (h[6] + 256
                * h[7]))))))
        }),
    ensures
        effects[1] matches Effect::StartEra { plan, .. } && m.is_plan(
            *plan,
            now,
            with_owner(validator_weights),
            seed,
            switch_block.timestamp,
            (switch_block.height + 1) as u64,
            switch_block.state_root_hash,
        ),
{
    lemma_with_owner(validator_weights);
    let h = crate::hash::blake2b_256(booking_block_hash.0@ + key_block_seed.0@);
    lemma_eight_bytes(h.take(8));
}

proof fn lemma_eight_bytes(b: Seq<u8>)
    requires
        b.len() == 8,
    ensures
        crate::bytes::le_value(b) == b[0] + 256 * (b[1] + 256 * (b[2] + 256 * (b[3] + 256 * (b[4] + 256 * (b[5] + 256 * (b[6] + 256
            * b[7])))))),
{
    reveal_with_fuel(crate::bytes::le_value, 9);
    assert(b.skip(1).skip(1) =~= b.skip(2));
    assert(b.skip(2).skip(1) =~= b.skip(3));
    assert(b.skip(3).skip(1) =~= b.skip(4));
    assert(b.skip(4).skip(1) =~= b.skip(5));
    assert(b.skip(5).skip(1) =~= b.skip(6));
    assert(b.skip(6).skip(1) =~= b.skip(7));
    assert(b.skip(7).skip(1) =~= Seq::<u8>::empty());
}

/// An instance is named by the hash of the chain's name, the time of genesis, the state, and what each
/// upgrade that has come by then, and no later one, installs.
pub proof fn law_instance_is_named_by_its_past(
    chainspec: crate::chainspec::Chainspec,
    post_state_hash: Digest,
    block_height: u64,
    k: int,
)
    requires
        0 <= k <= chainspec.upgrades@.len(),
        forall|i: int| 0 <= i < k ==> (#[trigger] chainspec.upgrades@[i]).activation_point.rank <= block_height,
        k < chainspec.upgrades@.len() ==> chainspec.upgrades@[k].activation_point.rank > block_height,
    ensures
        crate::consensus::era_supervisor::instance_bytes(chainspec, post_state_hash, block_height)
            == vstd::utf8::encode_utf8(chainspec.genesis.name@) + crate::bytes::le_bytes(chainspec.genesis.timestamp.0 as nat, 8)
            + post_state_hash.0@ + chainspec.upgrades@.take(k).map_values(
            |up: crate::chainspec::UpgradePoint|
                crate::bytes::le_bytes(up.activation_point.rank as nat, 8) + (match up.upgrade_installer_bytes {
                    Some(bytes) => bytes@,
                    None => Seq::empty(),
                }) + (match up.upgrade_installer_args {
                    Some(bytes) => bytes@,
                    None => Seq::empty(),
                }),
        ).flatten(),
{
    lemma_upgrades(chainspec.upgrades@, block_height, k);
}

proof fn lemma_upgrades(upgrades: Seq<crate::chainspec::UpgradePoint>, block_height: u64, k: int)
    requires
        0 <= k <= upgrades.len(),
        forall|i: int| 0 <= i < k ==> (#[trigger] upgrades[i]).activation_point.rank <= block_height,
        k < upgrades.len() ==> upgrades[k].activation_point.rank > block_height,
    ensures
        crate::consensus::era_supervisor::upgrades_bytes(upgrades, block_height) == upgrades.take(k).map_values(
            |up: crate::chainspec::UpgradePoint|
                crate::bytes::le_bytes(up.activation_point.rank as nat, 8) + (match up.upgrade_installer_bytes {
                    Some(bytes) => bytes@,
                    None => Seq::empty(),
                }) + (match up.upgrade_installer_args {
                    Some(bytes) => bytes@,
                    None => Seq::empty(),
                }),
        ).flatten(),
    decreases k,
{
    let f = |up: crate::chainspec::UpgradePoint|
        crate::bytes::le_bytes(up.activation_point.rank as nat, 8) + (match up.upgrade_installer_bytes {
            Some(bytes) => bytes@,
            None => Seq::empty(),
        }) + (match up.upgrade_installer_args {
            Some(bytes) => bytes@,
            None => Seq::empty(),
        });
    let mapped = upgrades.take(k).map_values(f);
    if k > 0 {
        let rest = upgrades.skip(1);
        assert forall|i: int| 0 <= i < k - 1 implies (#[trigger] rest[i]).activation_point.rank <= block_height by {
            assert(rest[i] == upgrades[i + 1]);
        }
        lemma_upgrades(rest, block_height, k - 1);
        assert(upgrades[0].activation_point.rank <= block_height);
        assert(mapped.drop_first() =~= rest.take(k - 1).map_values(f));
        assert(mapped.first() == f(upgrades[0]));
    } else {
        assert(mapped =~= Seq::<Seq<u8>>::empty());
    }
}

/// A block that was executed is signed. If it is from an earlier era, that is all; if it ends the current
/// one, the next era is asked for, with the block itself as its key block and, as its booking block, the
/// last one before the era that lies three eras before the new one; otherwise it is handled.
pub proof fn law_executed_blocks<I>(m: crate::consensus::era_supervisor::SupervisorModel, header: Rc<BlockHeader>)
    requires
        header.era_id.0 < u64::MAX,
    ensures
        ({
            let effects = m.chain_block_effects::<I>(header);
            let booked = if header.era_id.0 >= 2 {
                EraId((header.era_id.0 - 2) as u64)
            } else {
                EraId(0)
            };
            &&& effects.len() > 0
            &&& effects[0] == Effect::<I>::SignBlock(header)
            &&& header.era_id.0 < m.current_era.0 ==> effects.len() == 1
            &&& header.era_id.0 >= m.current_era.0 ==> effects.len() == 2
            &&& header.era_id.0 >= m.current_era.0 && !header.switch_block ==> effects[1] == Effect::<I>::AnnounceBlockHandled(header)
            &&& header.era_id.0 >= m.current_era.0 && header.switch_block ==> (effects[1] matches Effect::CreateNewEra {
                block_header,
                era_id,
                protocol_version,
                booking_block_height,
                key_block_height,
            } && block_header == header && era_id.0 == header.era_id.0 + 1 && protocol_version.major == 1 && protocol_version.minor == 0
                && protocol_version.patch == 0 && key_block_height == header.height && (if m.active[booked].start_height == 0 {
                booking_block_height == 0
            } else {
                booking_block_height + 1 == m.active[booked].start_height
            }))
        }),
{
}

/// A message of the protocol goes to its era, if that is active, and to no other; if the era is no longer
/// bonded, only evidence in it counts.
pub proof fn law_messages_reach_their_era<I>(
    m: crate::consensus::era_supervisor::SupervisorModel,
    sender: I,
    era_id: EraId,
    payload: Vec<u8>,
)
    ensures
        ({
            let effects = m.message_effects(sender, ConsensusMessage::Protocol { era_id, payload });
            &&& !m.active.contains_key(era_id) ==> effects.len() == 0
            &&& m.active.contains_key(era_id) ==> effects.len() == 1 && (effects[0] matches Effect::CallConsensus {
                era_id: e,
                call: ConsensusCall::HandleMessage { sender: from, payload: p, evidence_only },
            } && e == era_id && from == sender && p == payload && evidence_only == (era_id.0 + 11 < m.current_era.0))
        }),
{
}

/// A request for evidence goes, from the oldest on, to every active era that is bonded in the given one,
/// unless that one is itself no longer bonded.
pub proof fn law_evidence_requests_reach_bonded_eras<I>(
    m: crate::consensus::era_supervisor::SupervisorModel,
    sender: I,
    era_id: EraId,
    pub_key: PublicKey,
    other: EraId,
)
    ensures
        ({
            let effects = m.message_effects(sender, ConsensusMessage::EvidenceRequest { era_id, pub_key });
            let request = Effect::CallConsensus { era_id: other, call: ConsensusCall::RequestEvidence { sender, pub_key } };
            &&& era_id.0 + 11 < m.current_era.0 ==> effects.len() == 0
            &&& era_id.0 + 11 >= m.current_era.0 ==> effects.contains(request) == (m.active.contains_key(other) && other.0 <= era_id.0
                && other.0 + 11 >= era_id.0)
            &&& forall|i: int, j: int|
                0 <= i < j < effects.len() ==> (#[trigger] effects[i])->CallConsensus_era_id.0 < (#[trigger] effects[j])->CallConsensus_era_id.0
            &&& forall|i: int|
                0 <= i < effects.len() ==> (#[trigger] effects[i] matches Effect::CallConsensus {
                    call: ConsensusCall::RequestEvidence { sender: from, pub_key: key },
                    ..
                } && from == sender && key == pub_key)
        }),
{
    crate::consensus::era::law_bonded(era_id, other);
    let eras = era_id.bonded();
    assert(eras.take(eras.len() as int) =~= eras);
    lemma_requests(m, eras, eras.len() as int, sender, pub_key, other);
}

proof fn lemma_requests<I>(
    m: crate::consensus::era_supervisor::SupervisorModel,
    eras: Seq<EraId>,
    n: int,
    sender: I,
    pub_key: PublicKey,
    other: EraId,
)
    requires
        0 <= n <= eras.len(),
        forall|i: int, j: int| 0 <= i < j < eras.len() ==> (#[trigger] eras[i]).0 < (#[trigger] eras[j]).0,
    ensures
        ({
            let effects = m.evidence_requests(eras, n, sender, pub_key);
            let request = Effect::CallConsensus { era_id: other, call: ConsensusCall::RequestEvidence { sender, pub_key } };
            &&& effects.contains(request) == (m.active.contains_key(other) && eras.take(n).contains(other))
            &&& forall|i: int, j: int|
                0 <= i < j < effects.len() ==> (#[trigger] effects[i])->CallConsensus_era_id.0 < (#[trigger] effects[j])->CallConsensus_era_id.0
            &&& forall|i: int|
                0 <= i < effects.len() ==> (#[trigger] effects[i] matches Effect::CallConsensus {
                    era_id,
                    call: ConsensusCall::RequestEvidence { sender: from, pub_key: key },
                } && from == sender && key == pub_key && eras.take(n).contains(era_id))
        }),
    decreases n,
{
    let effects = m.evidence_requests(eras, n, sender, pub_key);
    if n > 0 {
        lemma_requests(m, eras, n - 1, sender, pub_key, other);
        let before = m.evidence_requests(eras, n - 1, sender, pub_key);
        let last = eras[n - 1];
        let more = m.delegated(last, ConsensusCall::RequestEvidence { sender, pub_key });
        assert(effects == before + more);
        assert(eras.take(n) =~= eras.take(n - 1).push(last));
        let request = Effect::CallConsensus { era_id: other, call: ConsensusCall::RequestEvidence { sender, pub_key } };
        assert forall|e: EraId| #[trigger] eras.take(n).contains(e) == (eras.take(n - 1).contains(e) || e == last) by {
            if eras.take(n - 1).contains(e) {
                let k = eras.take(n - 1).index_of(e);
                assert(eras.take(n)[k] == e);
            }
            if e == last {
                assert(eras.take(n)[n - 1] == e);
            }
            if eras.take(n).contains(e) && e != last {
                let k = eras.take(n).index_of(e);
                assert(eras.take(n - 1)[k] == e);
            }
        }
        if effects.contains(request) {
            let k = effects.index_of(request);
            if k < before.len() {
                assert(before[k] == request);
            } else {
                assert(more[0] == request);
            }
        }
        if before.contains(request) {
            let k = before.index_of(request);
            assert(effects[k] == request);
        }
        if m.active.contains_key(last) && other == last {
            assert(effects[before.len() as int] == request);
        }
        assert forall|i: int, j: int| 0 <= i < j < effects.len() implies (#[trigger] effects[i])->CallConsensus_era_id.0 < (
        #[trigger] effects[j])->CallConsensus_era_id.0 by {
            if j < before.len() {
                assert(effects[i] == before[i] && effects[j] == before[j]);
            } else {
                assert(effects[i] == before[i]);
                assert(effects[j] == more[0]);
                let e = before[i]->CallConsensus_era_id;
                assert(eras.take(n - 1).contains(e));
                let k = eras.take(n - 1).index_of(e);
                assert(eras[k] == e);
            }
        }
        assert forall|i: int| 0 <= i < effects.len() implies (#[trigger] effects[i] matches Effect::CallConsensus {
            era_id,
            call: ConsensusCall::RequestEvidence { sender: from, pub_key: key },
        } && from == sender && key == pub_key && eras.take(n).contains(era_id)) by {
            if i < before.len() {
                assert(effects[i] == before[i]);
            } else {
                assert(effects[i] == more[0]);
            }
        }
    } else {
        assert(eras.take(n) =~= Seq::<EraId>::empty());
    }
}

/// A proto block is announced and, where its era is active, proposed there with everyone accused, once,
/// who is known to be faulty in a bonded era, and nobody else.
pub proof fn law_proposals_accuse_the_faulty<I>(
    m: crate::consensus::era_supervisor::SupervisorModel,
    era_id: EraId,
    proto_block: Rc<ProtoBlock>,
    block_context: BlockContext,
    faults: EraFaults,
    effects: Seq<Effect<I>>,
    key: PublicKey,
)
    requires
        m.proposal_effects(era_id, proto_block, block_context, faults, effects),
    ensures
        effects.len() >= 1,
        effects[0] == Effect::<I>::AnnounceProposedProtoBlock(proto_block),
        !m.active.contains_key(era_id) ==> effects.len() == 1,
        m.active.contains_key(era_id) ==> effects.len() == 2 && (effects[1] matches Effect::CallConsensus {
            era_id: e,
            call: ConsensusCall::Propose { candidate, block_context: context },
        } && e == era_id && context == block_context && candidate.proto_block == proto_block && candidate.accusations@.no_duplicates()
            && candidate.accusations@.contains(key) == (exists|era: EraId|
            era.0 <= era_id.0 && era.0 + 11 >= era_id.0 && #[trigger] faults@.contains_key(era) && faults@[era]@.contains(key))),
{
    let candidate = choose|candidate: Rc<CandidateBlock>|
        {
            &&& candidate.proto_block == proto_block
            &&& candidate.accusations@ == crate::consensus::era_supervisor::unique(
                crate::consensus::era_supervisor::accused(faults, era_id.bonded(), era_id.bonded().len() as int),
            )
            &&& effects == seq![Effect::<I>::AnnounceProposedProtoBlock(proto_block)] + #[trigger] m.delegated(
                era_id,
                ConsensusCall::Propose { candidate, block_context },
            )
        };
    let eras = era_id.bonded();
    let all = crate::consensus::era_supervisor::accused(faults, eras, eras.len() as int);
    lemma_unique(all, key);
    lemma_accused(faults, eras, eras.len() as int, key);
    if exists|era: EraId|
        era.0 <= era_id.0 && era.0 + 11 >= era_id.0 && #[trigger] faults@.contains_key(era) && faults@[era]@.contains(key) {
        let era = choose|era: EraId|
            era.0 <= era_id.0 && era.0 + 11 >= era_id.0 && #[trigger] faults@.contains_key(era) && faults@[era]@.contains(key);
        crate::consensus::era::law_bonded(era_id, era);
        let i = eras.index_of(era);
        assert(eras[i] == era);
    }
    if all.contains(key) {
        let i = choose|i: int|
            0 <= i < eras.len() && faults@.contains_key(#[trigger] eras[i]) && faults@[eras[i]]@.contains(key);
        crate::consensus::era::law_bonded(era_id, eras[i]);
        assert(eras.contains(eras[i]));
    }
}

proof fn lemma_unique(keys: Seq<PublicKey>, key: PublicKey)
    ensures
        crate::consensus::era_supervisor::unique(keys).no_duplicates(),
        crate::consensus::era_supervisor::unique(keys).contains(key) == keys.contains(key),
    decreases keys.len(),
{
    if keys.len() > 0 {
        let front = keys.drop_last();
        lemma_unique(front, key);
        lemma_unique(front, keys.last());
        let before = crate::consensus::era_supervisor::unique(front);
        assert(keys =~= front.push(keys.last()));
        assert(keys.contains(key) == (front.contains(key) || key == keys.last())) by {
            lemma_push(front, keys.last(), key);
        }
        lemma_push(before, keys.last(), key);
    }
}

proof fn lemma_push<T>(s: Seq<T>, a: T, x: T)
    ensures
        s.push(a).contains(x) == (s.contains(x) || x == a),
{
    if s.contains(x) {
        let i = s.index_of(x);
        assert(s.push(a)[i] == x);
    }
    if x == a {
        assert(s.push(a)[s.len() as int] == x);
    }
    if s.push(a).contains(x) && x != a {
        let i = s.push(a).index_of(x);
        assert(s[i] == x);
    }
}

proof fn lemma_accused(faults: EraFaults, eras: Seq<EraId>, n: int, key: PublicKey)
    requires
        0 <= n <= eras.len(),
    ensures
        crate::consensus::era_supervisor::accused(faults, eras, n).contains(key) == (exists|i: int|
            0 <= i < n && faults@.contains_key(#[trigger] eras[i]) && faults@[eras[i]]@.contains(key)),
    decreases n,
{
    if n > 0 {
        lemma_accused(faults, eras, n - 1, key);
        let before = crate::consensus::era_supervisor::accused(faults, eras, n - 1);
        let more = if faults@.contains_key(eras[n - 1]) {
            faults@[eras[n - 1]]@
        } else {
            Seq::empty()
        };
        let all = before + more;
        if all.contains(key) {
            let k = all.index_of(key);
            if k < before.len() {
                assert(before[k] == key);
            } else {
                assert(more[k - before.len()] == key);
                assert(faults@.contains_key(eras[n - 1]));
            }
        }
        if before.contains(key) {
            let k = before.index_of(key);
            assert(all[k] == key);
        }
        if more.contains(key) {
            let k = more.index_of(key);
            assert(all[before.len() + k] == key);
        }
    }
}

/// A timer is set for the time that is left, and for now if none is. Messages go to everyone, or to the
/// one they are meant for, and to nobody when they were invalid; they name their era.
pub proof fn law_timers_and_messages<I>(
    m: crate::consensus::era_supervisor::SupervisorModel,
    era_id: EraId,
    result: ConsensusProtocolResult<I>,
    evidence: EraEvidence,
    now: Timestamp,
    random_bit: bool,
    effects: Seq<Effect<I>>,
)
    requires
        m.result_effects(era_id, result, evidence, now, random_bit, effects),
    ensures
        match result {
            ConsensusProtocolResult::InvalidIncomingMessage(_, _) => effects.len() == 0,
            ConsensusProtocolResult::CreatedGossipMessage(bytes) => effects.len() == 1 && (effects[0] matches Effect::Broadcast(
                ConsensusMessage::Protocol { era_id: e, payload },
            ) && e == era_id && payload == bytes),
            ConsensusProtocolResult::CreatedTargetedMessage(bytes, to) => effects.len() == 1 && (effects[0] matches Effect::Send(
                receiver,
                ConsensusMessage::Protocol { era_id: e, payload },
            ) && receiver == to && e == era_id && payload == bytes),
            ConsensusProtocolResult::ScheduleTimer(at) => effects.len() == 1 && (effects[0] matches Effect::SetTimeout {
                era_id: e,
                timestamp,
                delay,
            } && e == era_id && timestamp == at && (at.0 >= now.0 ==> now.0 + delay.0 == at.0) && (at.0 < now.0 ==> delay.0 == 0)),
            ConsensusProtocolResult::CreateNewBlock { block_context } => effects.len() == 1 && (
            effects[0] matches Effect::RequestProtoBlock { era_id: e, block_context: context, .. } && e == era_id && context
                == block_context),
            _ => true,
        },
{
}

/// Every accusation in a proposed block for which no bonded era has evidence is asked back from the
/// sender, and the block waits for it; then, where the era is active, the block is to be validated. What
/// is known already is not waited for.
pub proof fn law_accusations_need_evidence<I>(
    m: crate::consensus::era_supervisor::SupervisorModel,
    era_id: EraId,
    sender: I,
    candidate: Rc<CandidateBlock>,
    evidence: EraEvidence,
    now: Timestamp,
    random_bit: bool,
    effects: Seq<Effect<I>>,
    key: PublicKey,
)
    requires
        m.result_effects(
            era_id,
            ConsensusProtocolResult::ValidateConsensusValue(sender, candidate),
            evidence,
            now,
            random_bit,
            effects,
        ),
    ensures
        ({
            let known = exists|era: EraId|
                era.0 <= era_id.0 && era.0 + 11 >= era_id.0 && #[trigger] evidence@.contains_key(era) && evidence@[era]@.contains(key);
            let wanted = candidate.accusations@.contains(key) && !known;
            let after = m.after_result(
                era_id,
                ConsensusProtocolResult::ValidateConsensusValue(sender, candidate),
                evidence,
            );
            let pending = after.active[era_id].candidates.last();
            &&& effects.contains(Effect::Send(sender, ConsensusMessage::EvidenceRequest { era_id, pub_key: key })) == wanted
            &&& m.active.contains_key(era_id) ==> {
                &&& effects.len() > 0
                &&& effects.last() == Effect::ValidateBlock { era_id, sender, proto_block: candidate.proto_block }
                &&& after.active[era_id].candidates.len() == m.active[era_id].candidates.len() + 1
                &&& after.active[era_id].candidates.drop_last() == m.active[era_id].candidates
                &&& after.active[era_id].start_height == m.active[era_id].start_height
                &&& pending.candidate == candidate
                &&& !pending.validated
                &&& pending.missing.contains(key) == wanted
            }
            &&& !m.active.contains_key(era_id) ==> after == m
            &&& forall|other: EraId| other != era_id ==> #[trigger] after.active.contains_key(other) == m.active.contains_key(other) && (
            m.active.contains_key(other) ==> after.active[other] == m.active[other])
        }),
{
    broadcast use vstd::seq_lib::group_filter_ensures;

    let unknown = crate::consensus::era_supervisor::unknown(evidence, era_id);
    let missing = candidate.accusations@.filter(unknown);
    let asked = crate::consensus::era_supervisor::evidence_wanted(era_id, sender, missing);
    let known = exists|era: EraId|
        era.0 <= era_id.0 && era.0 + 11 >= era_id.0 && #[trigger] evidence@.contains_key(era) && evidence@[era]@.contains(key);
    lemma_known(evidence, era_id, key);
    if missing.contains(key) {
        candidate.accusations@.lemma_filter_contains_rev(unknown, key);
        let i = missing.index_of(key);
        assert(unknown(missing[i]));
    }
    if candidate.accusations@.contains(key) && !known {
        let i = candidate.accusations@.index_of(key);
        assert(unknown(candidate.accusations@[i]));
        assert(missing.contains(key));
    }
    let request: Effect<I> = Effect::Send(sender, ConsensusMessage::EvidenceRequest { era_id, pub_key: key });
    if missing.contains(key) {
        let i = missing.index_of(key);
        assert(asked[i] == request);
        assert(effects[i] == request);
    }
    if effects.contains(request) {
        let i = effects.index_of(request);
        assert(i < asked.len());
        assert(missing[i] == key);
    }
    let after = m.after_result(era_id, ConsensusProtocolResult::ValidateConsensusValue(sender, candidate), evidence);
    if m.active.contains_key(era_id) {
        assert(after.active[era_id].candidates.drop_last() =~= m.active[era_id].candidates);
    }
}

proof fn lemma_known(evidence: EraEvidence, era_id: EraId, key: PublicKey)
    ensures
        crate::consensus::era_supervisor::evidence_known(evidence, era_id, key) == (exists|era: EraId|
            era.0 <= era_id.0 && era.0 + 11 >= era_id.0 && #[trigger] evidence@.contains_key(era) && evidence@[era]@.contains(key)),
{
    let eras = era_id.bonded();
    if crate::consensus::era_supervisor::evidence_known(evidence, era_id, key) {
        let i = choose|i: int|
            0 <= i < eras.len() && crate::consensus::era_supervisor::known_in(evidence, #[trigger] eras[i], key);
        crate::consensus::era::law_bonded(era_id, eras[i]);
        assert(eras.contains(eras[i]));
        assert(evidence@.contains_key(eras[i]));
    }
    if exists|era: EraId|
        era.0 <= era_id.0 && era.0 + 11 >= era_id.0 && #[trigger] evidence@.contains_key(era) && evidence@[era]@.contains(key) {
        let era = choose|era: EraId|
            era.0 <= era_id.0 && era.0 + 11 >= era_id.0 && #[trigger] evidence@.contains_key(era) && evidence@[era]@.contains(key);
        crate::consensus::era::law_bonded(era_id, era);
        let i = eras.index_of(era);
        assert(crate::consensus::era_supervisor::known_in(evidence, eras[i], key));
    }
}

/// Effects that tell an era that a candidate is valid, or is not.
proof fn lemma_resolutions<I>(era_id: EraId, candidates: Seq<Rc<CandidateBlock>>, valid: bool, c: Rc<CandidateBlock>, v: bool)
    ensures
        ({
            let told = Effect::CallConsensus { era_id, call: ConsensusCall::ResolveValidity { candidate: c, valid: v } };
            crate::consensus::era_supervisor::resolutions::<I>(era_id, candidates, valid).contains(told) == (candidates.contains(c) && v
                == valid)
        }),
{
    let told: Effect<I> = Effect::CallConsensus { era_id, call: ConsensusCall::ResolveValidity { candidate: c, valid: v } };
    let all = crate::consensus::era_supervisor::resolutions::<I>(era_id, candidates, valid);
    if all.contains(told) {
        let i = all.index_of(told);
        assert(candidates[i] == c);
    }
    if candidates.contains(c) && v == valid {
        let i = candidates.index_of(c);
        assert(all[i] == told);
    }
}

/// Candidates that are chosen by a test.
proof fn lemma_chosen(
    candidates: Seq<crate::consensus::era::PendingModel>,
    p: spec_fn(crate::consensus::era::PendingModel) -> bool,
    c: Rc<CandidateBlock>,
)
    ensures
        crate::consensus::era::chosen(candidates, p).contains(c) == (exists|i: int|
            0 <= i < candidates.len() && (#[trigger] candidates[i]).candidate == c && p(candidates[i])),
{
    broadcast use vstd::seq_lib::group_filter_ensures;

    let kept = candidates.filter(p);
    let chosen = crate::consensus::era::chosen(candidates, p);
    if chosen.contains(c) {
        let i = chosen.index_of(c);
        let e = kept[i];
        assert(kept.contains(e));
        candidates.lemma_filter_contains_rev(p, e);
        let j = candidates.index_of(e);
        assert(candidates[j].candidate == c && p(candidates[j]));
    }
    if exists|i: int| 0 <= i < candidates.len() && (#[trigger] candidates[i]).candidate == c && p(candidates[i]) {
        let i = choose|i: int| 0 <= i < candidates.len() && (#[trigger] candidates[i]).candidate == c && p(candidates[i]);
        assert(kept.contains(candidates[i]));
        let j = kept.index_of(candidates[i]);
        assert(chosen[j] == c);
    }
}

/// What is left after those chosen by a test were taken out.
proof fn lemma_left(
    candidates: Seq<crate::consensus::era::PendingModel>,
    p: spec_fn(crate::consensus::era::PendingModel) -> bool,
    c: crate::consensus::era::PendingModel,
)
    ensures
        candidates.filter(crate::consensus::era::others(p)).contains(c) == (candidates.contains(c) && !p(c)),
{
    broadcast use vstd::seq_lib::group_filter_ensures;

    let q = crate::consensus::era::others(p);
    let kept = candidates.filter(q);
    if kept.contains(c) {
        candidates.lemma_filter_contains_rev(q, c);
        let i = kept.index_of(c);
        assert(q(kept[i]));
    }
    if candidates.contains(c) && !p(c) {
        let i = candidates.index_of(c);
        assert(q(candidates[i]));
        assert(kept.contains(candidates[i]));
    }
}

/// Once a proto block is found valid, each candidate with it that waits for no evidence is resolved as
/// valid and is no longer pending; one that waits for evidence is noted as validated and stays; candidates
/// with another block that are not complete stay as they are. The block is announced last.
pub proof fn law_valid_blocks_are_resolved<I>(
    m: crate::consensus::era_supervisor::SupervisorModel,
    era_id: EraId,
    proto_block: Rc<ProtoBlock>,
    i: int,
)
    requires
        m.active.contains_key(era_id),
        0 <= i < m.active[era_id].candidates.len(),
    ensures
        ({
            let c = m.active[era_id].candidates[i];
            let effects = m.accepted_effects::<I>(era_id, proto_block);
            let after = m.with_accepted(era_id, proto_block@).active[era_id].candidates;
            let resolved = Effect::CallConsensus {
                era_id,
                call: ConsensusCall::ResolveValidity { candidate: c.candidate, valid: true },
            };
            &&& effects.len() > 0
            &&& effects.last() == Effect::<I>::AnnounceProposedProtoBlock(proto_block)
            &&& c.candidate.proto_block@ == proto_block@ && c.missing.len() == 0 ==> effects.contains(resolved)
            &&& c.candidate.proto_block@ == proto_block@ && c.missing.len() > 0 ==> after.contains(
                crate::consensus::era::PendingModel { candidate: c.candidate, validated: true, missing: c.missing },
            )
            &&& c.candidate.proto_block@ != proto_block@ && !(c.validated && c.missing.len() == 0) ==> after.contains(c)
        }),
{
    let c = m.active[era_id].candidates[i];
    let now = m.active[era_id].accepting(proto_block@);
    let complete = crate::consensus::era::complete();
    let chosen = crate::consensus::era::chosen(now, complete);
    let effects = m.accepted_effects::<I>(era_id, proto_block);
    let resolved: Effect<I> = Effect::CallConsensus {
        era_id,
        call: ConsensusCall::ResolveValidity { candidate: c.candidate, valid: true },
    };
    assert(now[i] == c.accepted(proto_block@));
    assert(now.contains(now[i]));
    lemma_chosen(now, complete, c.candidate);
    lemma_resolutions::<I>(era_id, chosen, true, c.candidate, true);
    lemma_left(now, complete, now[i]);
    let told = crate::consensus::era_supervisor::resolutions::<I>(era_id, chosen, true);
    lemma_push(told, Effect::AnnounceProposedProtoBlock(proto_block), resolved);
}

/// No candidate is resolved as valid, when a block is found valid, that waits for evidence or whose own
/// block was not found valid, and none as invalid. What stays pending is not complete.
pub proof fn law_only_valid_blocks_are_resolved<I>(
    m: crate::consensus::era_supervisor::SupervisorModel,
    era_id: EraId,
    proto_block: Rc<ProtoBlock>,
    c: Rc<CandidateBlock>,
    valid: bool,
    j: int,
)
    requires
        m.active.contains_key(era_id),
        m.accepted_effects::<I>(era_id, proto_block).contains(
            Effect::CallConsensus { era_id, call: ConsensusCall::ResolveValidity { candidate: c, valid } },
        ),
        0 <= j < m.with_accepted(era_id, proto_block@).active[era_id].candidates.len(),
    ensures
        valid,
        exists|i: int|
            {
                &&& 0 <= i < m.active[era_id].candidates.len()
                &&& (#[trigger] m.active[era_id].candidates[i]).candidate == c
                &&& m.active[era_id].candidates[i].missing.len() == 0
                &&& m.active[era_id].candidates[i].validated || c.proto_block@ == proto_block@
            },
        ({
            let left = m.with_accepted(era_id, proto_block@).active[era_id].candidates[j];
            !left.validated || left.missing.len() > 0
        }),
{
    let now = m.active[era_id].accepting(proto_block@);
    let complete = crate::consensus::era::complete();
    let chosen = crate::consensus::era::chosen(now, complete);
    let told = crate::consensus::era_supervisor::resolutions::<I>(era_id, chosen, true);
    let resolved: Effect<I> = Effect::CallConsensus { era_id, call: ConsensusCall::ResolveValidity { candidate: c, valid } };
    lemma_push(told, Effect::AnnounceProposedProtoBlock(proto_block), resolved);
    lemma_resolutions::<I>(era_id, chosen, true, c, valid);
    lemma_chosen(now, complete, c);
    let i = choose|i: int| 0 <= i < now.len() && (#[trigger] now[i]).candidate == c && complete(now[i]);
    assert(now[i] == m.active[era_id].candidates[i].accepted(proto_block@));
    assert(m.active[era_id].candidates[i].candidate == c);
    let after = m.with_accepted(era_id, proto_block@).active[era_id].candidates;
    assert(after.contains(after[j]));
    lemma_left(now, complete, after[j]);
}

/// Once a proto block is found invalid, each candidate with it, and no other, is resolved as invalid and
/// no longer pending; all others stay as they are.
pub proof fn law_invalid_blocks_are_resolved<I>(
    m: crate::consensus::era_supervisor::SupervisorModel,
    era_id: EraId,
    block: crate::types::ProtoBlockModel,
    c: crate::consensus::era::PendingModel,
    candidate: Rc<CandidateBlock>,
    valid: bool,
)
    requires
        m.active.contains_key(era_id),
    ensures
        m.with_rejected(era_id, block).active[era_id].candidates.contains(c) == (m.active[era_id].candidates.contains(c)
            && c.candidate.proto_block@ != block),
        m.rejected_effects::<I>(era_id, block).contains(
            Effect::CallConsensus { era_id, call: ConsensusCall::ResolveValidity { candidate, valid } },
        ) == (!valid && exists|i: int|
            0 <= i < m.active[era_id].candidates.len() && (#[trigger] m.active[era_id].candidates[i]).candidate == candidate
                && candidate.proto_block@ == block),
{
    let test = crate::consensus::era::candidate_for(block);
    let candidates = m.active[era_id].candidates;
    lemma_left(candidates, test, c);
    lemma_chosen(candidates, test, candidate);
    lemma_resolutions::<I>(era_id, crate::consensus::era::chosen(candidates, test), false, candidate, valid);
    if exists|i: int| 0 <= i < candidates.len() && (#[trigger] candidates[i]).candidate == candidate && test(candidates[i]) {
        let i = choose|i: int| 0 <= i < candidates.len() && (#[trigger] candidates[i]).candidate == candidate && test(candidates[i]);
        assert(m.active[era_id].candidates[i].candidate == candidate);
    }
    if exists|i: int|
        0 <= i < m.active[era_id].candidates.len() && (#[trigger] m.active[era_id].candidates[i]).candidate == candidate
            && candidate.proto_block@ == block {
        let i = choose|i: int|
            0 <= i < m.active[era_id].candidates.len() && (#[trigger] m.active[era_id].candidates[i]).candidate == candidate
                && candidate.proto_block@ == block;
        assert(test(candidates[i]));
    }
}

/// New evidence against a validator is what no candidate of the era waits for any longer. A candidate that
/// was valid and waited for nothing else is resolved as valid and no longer pending; any other stays, and
/// still waits for all other evidence that it waited for. The next era, up to the last one in which the
/// era is bonded, is taken up next.
pub proof fn law_new_evidence_resolves_candidates<I>(
    m: crate::consensus::era_supervisor::SupervisorModel,
    era_id: EraId,
    pub_key: PublicKey,
    evidence: EraEvidence,
    now: Timestamp,
    random_bit: bool,
    effects: Seq<Effect<I>>,
    i: int,
    other: PublicKey,
) -> (left: crate::consensus::era::PendingModel)
    requires
        m.active.contains_key(era_id),
        era_id.0 + 11 <= u64::MAX,
        m.result_effects(
            era_id,
            ConsensusProtocolResult::<I>::NewEvidence(pub_key),
            evidence,
            now,
            random_bit,
            effects,
        ),
        0 <= i < m.active[era_id].candidates.len(),
        other != pub_key,
    ensures
        ({
            let c = m.active[era_id].candidates[i];
            let after = m.after_result(
                era_id,
                ConsensusProtocolResult::<I>::NewEvidence(pub_key),
                evidence,
            ).active[era_id].candidates;
            let resolved = Effect::CallConsensus {
                era_id,
                call: ConsensusCall::ResolveValidity { candidate: c.candidate, valid: true },
            };
            let done = c.validated && forall|k: int| 0 <= k < c.missing.len() ==> #[trigger] c.missing[k] == pub_key;
            &&& done ==> effects.contains(resolved)
            &&& !done ==> {
                &&& after.contains(left)
                &&& left.candidate == c.candidate
                &&& left.validated == c.validated
                &&& !left.missing.contains(pub_key)
                &&& left.missing.contains(other) == c.missing.contains(other)
            }
            &&& effects.len() > 0
            &&& effects.last() matches Effect::ResolveEvidence { era_id: next, last, pub_key: key } && next.0 == era_id.0 + 1
                && last.0 == era_id.0 + 11 && key == pub_key
        }),
{
    broadcast use vstd::seq_lib::group_filter_ensures;

    let c = m.active[era_id].candidates[i];
    let resolved_now = m.active[era_id].resolved(pub_key);
    let complete = crate::consensus::era::complete();
    let left = c.without(pub_key);
    let q = crate::consensus::era::is_not(pub_key);
    assert(resolved_now[i] == left);
    assert(resolved_now.contains(left));
    lemma_chosen(resolved_now, complete, c.candidate);
    let chosen = crate::consensus::era::chosen(resolved_now, complete);
    lemma_resolutions::<I>(era_id, chosen, true, c.candidate, true);
    lemma_left(resolved_now, complete, left);
    let told = crate::consensus::era_supervisor::resolutions::<I>(era_id, chosen, true);
    let resolved: Effect<I> = Effect::CallConsensus {
        era_id,
        call: ConsensusCall::ResolveValidity { candidate: c.candidate, valid: true },
    };
    if told.contains(resolved) {
        let k = told.index_of(resolved);
        assert(effects[k] == resolved);
    }
    if left.missing.contains(pub_key) {
        let k = left.missing.index_of(pub_key);
        assert(q(left.missing[k]));
    }
    if left.missing.contains(other) {
        c.missing.lemma_filter_contains_rev(q, other);
    }
    if c.missing.contains(other) {
        let k = c.missing.index_of(other);
        assert(q(c.missing[k]));
    }
    if left.missing.len() > 0 {
        let e = left.missing[0];
        assert(left.missing.contains(e));
        c.missing.lemma_filter_contains_rev(q, e);
        let k = c.missing.index_of(e);
        assert(c.missing[k] != pub_key);
    } else {
        assert forall|k: int| 0 <= k < c.missing.len() implies #[trigger] c.missing[k] == pub_key by {
            if c.missing[k] != pub_key {
                assert(q(c.missing[k]));
                assert(left.missing.contains(c.missing[k]));
            }
        }
    }
    left
}

/// Something for an era reaches that era, once, exactly if it is active.
pub proof fn law_active_eras_are_called<I>(
    m: crate::consensus::era_supervisor::SupervisorModel,
    era_id: EraId,
    call: ConsensusCall<I>,
)
    ensures
        m.active.contains_key(era_id) ==> m.delegated(era_id, call).len() == 1 && (
        m.delegated(era_id, call)[0] matches Effect::CallConsensus { era_id: e, call: c } && e == era_id && c == call),
        !m.active.contains_key(era_id) ==> m.delegated(era_id, call).len() == 0,
{
}

/// Evidence goes on from one era to the next, up to the last one that it matters for, whether or not an
/// era on the way is active, and changes no era but the one that it has reached.
pub proof fn law_evidence_goes_on<I>(
    m: crate::consensus::era_supervisor::SupervisorModel,
    era_id: EraId,
    last: EraId,
    pub_key: PublicKey,
    other: EraId,
)
    requires
        other != era_id,
    ensures
        ({
            let effects = m.evidence_effects::<I>(era_id, last, pub_key);
            let after = m.evidence_resolved(era_id, pub_key);
            &&& era_id.0 < last.0 ==> effects.len() > 0 && (effects.last() matches Effect::ResolveEvidence {
                era_id: next,
                last: end,
                pub_key: key,
            } && next.0 == era_id.0 + 1 && end == last && key == pub_key)
            &&& era_id.0 >= last.0 ==> forall|i: int| 0 <= i < effects.len() ==> !(#[trigger] effects[i] is ResolveEvidence)
            &&& !m.active.contains_key(era_id) ==> after == m && effects.len() <= 1
            &&& after.active.contains_key(other) == m.active.contains_key(other)
            &&& m.active.contains_key(other) ==> after.active[other] == m.active[other]
            &&& after.current_era == m.current_era
            &&& m.active.contains_key(era_id) ==> after.active.contains_key(era_id) && after.active[era_id].start_height
                == m.active[era_id].start_height
        }),
{
}

} // verus!
