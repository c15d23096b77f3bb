//! Tests of the era supervisor and of eras.

use casper_node::bytes::leading_le_u64;
use casper_node::chainspec::{
    ActivationPoint, Chainspec, GenesisConfig, HighwayConfig, UpgradePoint,
};
use casper_node::collections::VecMap;
use casper_node::consensus::config::Config;
use casper_node::consensus::era::{CandidateBlock, ConsensusMessage, Era, BONDED_ERAS};
use casper_node::consensus::era_supervisor::{
    block_or_height, ConsensusCall, ConsensusProtocolResult, CpFinalizedBlock, Effect, EraPlan,
    EraSupervisor,
};
use casper_node::consensus::BlockContext;
use casper_node::deploy::DeployConfig;
use casper_node::hash::{hash, Digest};
use casper_node::keys::PublicKey;
use casper_node::ordered::OrderedMap;
use casper_node::timestamp::{TimeDiff, Timestamp};
use casper_node::types::{BlockHeader, EraId, ProtoBlock, ProtocolVersion};
use casper_node::uint::U512;
use rand::rngs::StdRng;
use rand::SeedableRng;
use std::rc::Rc;

fn key(n: u8) -> PublicKey {
    PublicKey::Ed25519([n; 32])
}

fn chainspec() -> Chainspec {
    Chainspec {
        genesis: GenesisConfig {
            name: "chain".to_string(),
            timestamp: Timestamp(258),
            highway_config: HighwayConfig {
                genesis_era_start_timestamp: Timestamp(1_000),
                era_duration: TimeDiff(500),
                minimum_era_height: 10,
                finality_threshold_percent: 10,
                minimum_round_exponent: 6,
            },
            deploy_config: DeployConfig::default(),
        },
        upgrades: vec![
            UpgradePoint {
                activation_point: ActivationPoint { rank: 5 },
                upgrade_installer_bytes: Some(vec![1, 2]),
                upgrade_installer_args: None,
            },
            UpgradePoint {
                activation_point: ActivationPoint { rank: 9 },
                upgrade_installer_bytes: None,
                upgrade_installer_args: Some(vec![3]),
            },
        ],
    }
}

fn stakes() -> Vec<(PublicKey, U512)> {
    vec![(key(1), U512::from_u64(30)), (key(2), U512::from_u64(70))]
}

fn weights() -> Vec<(Option<PublicKey>, U512)> {
    // The validator in the middle has a key that could not be converted.
    vec![
        (Some(key(1)), U512::from_u64(30)),
        (None, U512::from_u64(500)),
        (Some(key(2)), U512::from_u64(70)),
    ]
}

fn supervisor_at(timestamp: u64, node_start: u64, our_key: u8) -> (EraSupervisor, EraPlan) {
    EraSupervisor::new(
        Timestamp(timestamp),
        key(our_key),
        Timestamp(node_start),
        stakes(),
        chainspec(),
        Digest([8; 32]),
    )
}

fn supervisor() -> EraSupervisor {
    supervisor_at(900, 500, 1).0
}

fn proto_block(n: u8) -> Rc<ProtoBlock> {
    Rc::new(ProtoBlock {
        hash: Digest([n; 32]),
        deploys: vec![],
        transfers: vec![],
        random_bit: true,
    })
}

fn candidate(n: u8, accusations: Vec<PublicKey>) -> Rc<CandidateBlock> {
    Rc::new(CandidateBlock::new(proto_block(n), Rc::new(accusations)))
}

fn header(era: u64, height: u64, switch_block: bool) -> Rc<BlockHeader> {
    Rc::new(BlockHeader {
        parent_hash: Digest([0; 32]),
        state_root_hash: Digest([4; 32]),
        deploy_hashes: vec![],
        transfer_hashes: vec![],
        timestamp: Timestamp(2_000),
        era_id: EraId(era),
        height,
        switch_block,
    })
}

#[test]
fn first_era_is_planned() {
    let (supervisor, plan) = supervisor_at(900, 500, 1);
    assert_eq!(supervisor.current_era(), EraId(0));
    assert!(supervisor.is_active(EraId(0)));
    assert_eq!(plan.validators, vec![(key(1), 30), (key(2), 70)]);
    assert_eq!(plan.ftt, 10);
    assert_eq!(plan.activate_at, Some(Timestamp(1_000)));
    // The bytes that the instance ID is the hash of: the name, the time and the state.
    let mut bytes = b"chain".to_vec();
    bytes.extend_from_slice(&[2, 1, 0, 0, 0, 0, 0, 0]);
    bytes.extend_from_slice(&[8; 32]);
    assert_eq!(plan.instance_id, hash(&bytes));
    // From the fifth block on the first upgrade takes part.
    bytes.extend_from_slice(&[5, 0, 0, 0, 0, 0, 0, 0, 1, 2]);
    assert_eq!(supervisor.instance_id(Digest([8; 32]), 5), hash(&bytes));
    bytes.extend_from_slice(&[9, 0, 0, 0, 0, 0, 0, 0, 3]);
    assert_eq!(supervisor.instance_id(Digest([8; 32]), 9), hash(&bytes));
}

#[test]
fn node_votes_only_when_it_should() {
    // The node was started too late.
    assert_eq!(supervisor_at(1_100, 1_000, 1).1.activate_at, None);
    // The era is over: ten rounds of 64 milliseconds are longer than its duration.
    assert_eq!(supervisor_at(1_641, 500, 1).1.activate_at, None);
    assert_eq!(
        supervisor_at(1_640, 500, 1).1.activate_at,
        Some(Timestamp(1_640))
    );
    // The node is no validator.
    assert_eq!(supervisor_at(900, 500, 3).1.activate_at, None);
}

#[test]
fn large_stakes_are_scaled_down() {
    let max = U512::from_u64(u64::MAX);
    let large = vec![(key(1), max), (key(2), max), (key(3), U512::from_u64(5))];
    let mut chainspec = chainspec();
    chainspec.genesis.highway_config.finality_threshold_percent = 0;
    let (_, plan) = EraSupervisor::new(
        Timestamp(900),
        key(1),
        Timestamp(500),
        large,
        chainspec,
        Digest([8; 32]),
    );
    // The sum is a little more than twice the maximum, so that the divisor is three.
    assert_eq!(
        plan.validators,
        vec![(key(1), u64::MAX / 3), (key(2), u64::MAX / 3), (key(3), 1)]
    );
}

#[test]
fn messages_go_to_their_era() {
    let supervisor = supervisor();
    let effects = supervisor.handle_message(5u32, EraId(0).message(vec![1]));
    assert!(matches!(
        effects[..],
        [Effect::CallConsensus {
            era_id: EraId(0),
            call: ConsensusCall::HandleMessage {
                sender: 5,
                evidence_only: false,
                ..
            }
        }]
    ));
    let effects = supervisor.handle_message(5u32, EraId(1).message(vec![1]));
    assert!(effects.is_empty());
    let effects = supervisor.handle_message(
        5u32,
        ConsensusMessage::EvidenceRequest {
            era_id: EraId(1),
            pub_key: key(2),
        },
    );
    // Of the two eras that are bonded in the requested one only the first is active.
    assert!(matches!(
        effects[..],
        [Effect::CallConsensus {
            era_id: EraId(0),
            call: ConsensusCall::RequestEvidence { sender: 5, .. }
        }]
    ));
    let effects = supervisor.handle_timer::<u32>(EraId(0), Timestamp(77));
    assert!(matches!(
        effects[..],
        [Effect::CallConsensus {
            call: ConsensusCall::HandleTimer(Timestamp(77)),
            ..
        }]
    ));
}

#[test]
fn switch_block_leads_to_a_new_era() {
    let mut supervisor = supervisor();
    let effects = supervisor.handle_linear_chain_block::<u32>(header(0, 9, false));
    assert!(matches!(
        effects[..],
        [Effect::SignBlock(_), Effect::AnnounceBlockHandled(_)]
    ));
    let switch_block = header(0, 10, true);
    let effects = supervisor.handle_linear_chain_block::<u32>(switch_block.clone());
    assert!(matches!(
        effects[..],
        [
            Effect::SignBlock(_),
            Effect::CreateNewEra {
                era_id: EraId(1),
                protocol_version: ProtocolVersion {
                    major: 1,
                    minor: 0,
                    patch: 0,
                },
                booking_block_height: 0,
                key_block_height: 10,
                ..
            }
        ]
    ));
    let effects = supervisor.handle_create_new_era::<u32>(
        switch_block,
        Digest([1; 32]),
        Digest([2; 32]),
        weights(),
        Timestamp(2_100),
    );
    assert_eq!(effects.len(), 3);
    assert!(matches!(effects[0], Effect::DeactivateValidator(EraId(0))));
    match &effects[1] {
        Effect::StartEra { era_id, plan } => {
            assert_eq!(*era_id, EraId(1));
            assert_eq!(plan.activate_at, Some(Timestamp(2_100)));
            assert_eq!(plan.validators, vec![(key(1), 30), (key(2), 70)]);
        }
        _ => panic!("an era should start"),
    }
    assert!(matches!(effects[2], Effect::AnnounceBlockHandled(_)));
    assert_eq!(supervisor.current_era(), EraId(1));
    // A block of an old era is only signed.
    let effects = supervisor.handle_linear_chain_block::<u32>(header(0, 9, true));
    assert!(matches!(effects[..], [Effect::SignBlock(_)]));
}

#[test]
fn obsolete_eras_are_removed() {
    let mut supervisor = supervisor();
    for era in 0..(2 * BONDED_ERAS + 1) {
        supervisor.handle_create_new_era::<u32>(
            header(era, era + 1, true),
            Digest([1; 32]),
            Digest([2; 32]),
            weights(),
            Timestamp(2_100),
        );
        assert_eq!(supervisor.is_active(EraId(0)), era < 2 * BONDED_ERAS);
    }
    assert!(supervisor.is_active(EraId(1)));
    assert_eq!(supervisor.booking_block_height(EraId(5)), 2);
}

#[test]
fn seed_is_taken_from_a_hash() {
    let mut bytes = vec![1u8; 32];
    bytes.extend_from_slice(&[2; 32]);
    assert_eq!(
        EraSupervisor::era_seed(Digest([1; 32]), Digest([2; 32])),
        leading_le_u64(&hash(&bytes).0)
    );
    assert_eq!(leading_le_u64(&[1, 2, 0, 0, 0, 0, 0, 0, 9]), 513);
}

#[test]
fn accusations_are_collected() {
    let supervisor = supervisor();
    let mut faults = VecMap::new();
    faults.insert(EraId(0), vec![key(2), key(1), key(2)]);
    let context = BlockContext {
        timestamp: Timestamp(1_064),
        height: 1,
    };
    let effects =
        supervisor.handle_new_proto_block::<u32>(EraId(0), proto_block(1), context, &faults);
    assert_eq!(effects.len(), 2);
    assert!(matches!(effects[0], Effect::AnnounceProposedProtoBlock(_)));
    match &effects[1] {
        Effect::CallConsensus {
            call: ConsensusCall::Propose { candidate, .. },
            ..
        } => {
            assert_eq!(*candidate.accusations, vec![key(2), key(1)]);
        }
        _ => panic!("the block should be proposed"),
    }
}

#[test]
fn candidate_waits_for_validation_and_evidence() {
    let mut supervisor = supervisor();
    let mut evidence = VecMap::new();
    evidence.insert(EraId(0), vec![key(1)]);
    let value = candidate(1, vec![key(1), key(2)]);
    let effects = supervisor.handle_result_at(
        EraId(0),
        ConsensusProtocolResult::ValidateConsensusValue(5u32, value),
        &evidence,
        Timestamp(1_100),
        false,
    );
    assert_eq!(effects.len(), 2);
    assert!(matches!(
        effects[0],
        Effect::Send(5, ConsensusMessage::EvidenceRequest { era_id: EraId(0), pub_key }) if pub_key == key(2)
    ));
    assert!(matches!(
        effects[1],
        Effect::ValidateBlock { sender: 5, .. }
    ));
    // The block is valid, but evidence is still missing.
    let effects = supervisor.handle_validated(EraId(0), 5u32, proto_block(1), true);
    assert!(matches!(
        effects[..],
        [Effect::AnnounceProposedProtoBlock(_)]
    ));
    let effects = supervisor.handle_result_at::<u32>(
        EraId(0),
        ConsensusProtocolResult::NewEvidence(key(2)),
        &evidence,
        Timestamp(1_100),
        false,
    );
    assert_eq!(effects.len(), 2);
    assert!(matches!(
        effects[0],
        Effect::CallConsensus {
            call: ConsensusCall::ResolveValidity { valid: true, .. },
            ..
        }
    ));
    assert!(matches!(
        effects[1],
        Effect::ResolveEvidence {
            era_id: EraId(1),
            ..
        }
    ));
    // The last era of the bonded ones ends the matter.
    let effects =
        supervisor.resolve_evidence::<u32>(EraId(BONDED_ERAS), EraId(BONDED_ERAS), key(2));
    assert!(effects.is_empty());
}

#[test]
fn invalid_block_is_rejected() {
    let mut supervisor = supervisor();
    let evidence = VecMap::new();
    supervisor.handle_result_at(
        EraId(0),
        ConsensusProtocolResult::ValidateConsensusValue(5u32, candidate(1, vec![])),
        &evidence,
        Timestamp(1_100),
        false,
    );
    let effects = supervisor.handle_invalid_proto_block(EraId(0), 5u32, proto_block(2));
    assert!(effects.is_empty());
    let effects = supervisor.handle_validated(EraId(0), 5u32, proto_block(1), false);
    assert!(matches!(
        effects[..],
        [Effect::CallConsensus {
            call: ConsensusCall::ResolveValidity { valid: false, .. },
            ..
        }]
    ));
    let effects = supervisor.handle_invalid_proto_block(EraId(7), 5u32, proto_block(1));
    assert!(effects.is_empty());
    let effects = supervisor.handle_accept_proto_block::<u32>(EraId(0), proto_block(1));
    assert!(matches!(
        effects[..],
        [Effect::AnnounceProposedProtoBlock(_)]
    ));
}

#[test]
fn finalized_block_is_announced_and_executed() {
    let mut supervisor = supervisor();
    let evidence = VecMap::new();
    let mut rewards = OrderedMap::new();
    rewards.insert(key(1), 5u64);
    let block = CpFinalizedBlock {
        value: candidate(1, vec![key(2)]),
        timestamp: Timestamp(1_064),
        height: 4,
        rewards: Some(rewards),
        proposer: key(1),
    };
    let effects = supervisor.handle_result_at::<u32>(
        EraId(0),
        ConsensusProtocolResult::FinalizedBlock(block),
        &evidence,
        Timestamp(1_100),
        false,
    );
    assert_eq!(effects.len(), 2);
    assert!(matches!(effects[1], Effect::ExecuteBlock(_)));
    match &effects[0] {
        Effect::AnnounceFinalizedBlock(block) => {
            assert_eq!(block.height, 4);
            assert_eq!(block.era_id, EraId(0));
            match &block.era_end {
                Some(era_end) => {
                    assert_eq!(*era_end.equivocators, vec![key(2)]);
                    assert_eq!(era_end.rewards.get(&key(1)), Some(&5));
                }
                None => panic!("the block ends the era"),
            }
        }
        _ => panic!("the block should be announced"),
    }
}

#[test]
fn other_results_are_passed_on() {
    let mut supervisor = supervisor();
    let mut rng = StdRng::seed_from_u64(7);
    let evidence = VecMap::new();
    let mut handle = |result: ConsensusProtocolResult<u32>| {
        supervisor.handle_consensus_result(EraId(0), result, &evidence, Timestamp(1_100), &mut rng)
    };
    assert!(handle(ConsensusProtocolResult::InvalidIncomingMessage(vec![1], 5)).is_empty());
    assert!(matches!(
        handle(ConsensusProtocolResult::CreatedGossipMessage(vec![1]))[..],
        [Effect::Broadcast(ConsensusMessage::Protocol {
            era_id: EraId(0),
            ..
        })]
    ));
    assert!(matches!(
        handle(ConsensusProtocolResult::CreatedTargetedMessage(vec![1], 5))[..],
        [Effect::Send(5, ConsensusMessage::Protocol { .. })]
    ));
    assert!(matches!(
        handle(ConsensusProtocolResult::ScheduleTimer(Timestamp(1_150)))[..],
        [Effect::SetTimeout {
            delay: TimeDiff(50),
            ..
        }]
    ));
    assert!(matches!(
        handle(ConsensusProtocolResult::ScheduleTimer(Timestamp(1_000)))[..],
        [Effect::SetTimeout {
            delay: TimeDiff(0),
            ..
        }]
    ));
    // Both values of the random bit come up.
    let mut bits = [false, false];
    for _ in 0..100 {
        let block_context = BlockContext {
            timestamp: Timestamp(1_064),
            height: 1,
        };
        match handle(ConsensusProtocolResult::CreateNewBlock { block_context })[..] {
            [Effect::RequestProtoBlock { random_bit, .. }] => bits[random_bit as usize] = true,
            _ => panic!("a block should be requested"),
        }
    }
    assert_eq!(bits, [true, true]);
}

#[test]
fn missing_blocks_are_told_by_height() {
    assert_eq!(block_or_height(Some("b"), 4), Ok("b"));
    assert_eq!(block_or_height::<u8>(None, 4), Err(4));
}

#[test]
fn eras_hand_out_complete_candidates() {
    let mut era = Era::new(7);
    assert_eq!(era.start_height(), 7);
    era.add_candidate(candidate(1, vec![key(1)]), vec![key(1)]);
    era.add_candidate(candidate(2, vec![]), vec![]);
    assert_eq!(era.accept_proto_block(&proto_block(2)).len(), 1);
    assert_eq!(era.accept_proto_block(&proto_block(1)).len(), 0);
    assert_eq!(era.resolve_evidence(&key(3)).len(), 0);
    assert_eq!(era.resolve_evidence(&key(1)).len(), 1);
    assert_eq!(era.remove_complete_candidates().len(), 0);
    assert_eq!(era.reject_proto_block(&proto_block(1)).len(), 0);
}

#[test]
fn era_numbers() {
    assert_eq!(BONDED_ERAS, 11);
    assert_eq!(EraId(3).successor(), EraId(4));
    assert_eq!(EraId(3).checked_sub(4), None);
    assert_eq!(EraId(3).checked_sub(3), Some(EraId(0)));
    assert_eq!(EraId(1).iter_bonded(), vec![EraId(0), EraId(1)]);
    let bonded = EraId(20).iter_bonded();
    assert_eq!(bonded.len(), 12);
    assert_eq!(bonded[0], EraId(9));
    assert_eq!(EraId(20).to_text(), "era 20");
}

#[test]
fn default_config() {
    let config = Config::with_defaults("units", ());
    assert_eq!(config.unit_hashes_folder, "units");
    assert_eq!(config.pending_vertex_timeout, TimeDiff(10_000));
    assert_eq!(config.request_latest_state_timeout, TimeDiff(5_000));
    assert_eq!(config.standstill_timeout, TimeDiff(60_000));
    assert_eq!(config.log_participation_interval, TimeDiff(10_000));
    assert_eq!(config.max_execution_delay, 3);
}

#[test]
fn eras_that_cannot_start() {
    let supervisor = supervisor();
    assert!(!supervisor.can_start_era(EraId(0), &stakes(), Timestamp(2_000)));
    assert!(supervisor.can_start_era(EraId(1), &stakes(), Timestamp(2_000)));
    assert!(!supervisor.can_start_era(EraId(1), &vec![], Timestamp(2_000)));
    assert!(!supervisor.can_start_era(EraId(1), &stakes(), Timestamp(u64::MAX - 600)));
    let mut config = supervisor.highway_config();
    config.minimum_round_exponent = 64;
    assert!(!EraSupervisor::can_start_with(
        &config,
        &stakes(),
        Timestamp(2_000)
    ));
}

#[test]
fn results_that_cannot_be_handled() {
    let supervisor = supervisor();
    let evidence = VecMap::new();
    let validate = || ConsensusProtocolResult::ValidateConsensusValue(5u32, candidate(1, vec![key(1)]));
    assert!(supervisor.can_handle_result(EraId(0), &validate(), &evidence));
    assert!(!supervisor.can_handle_result(EraId(1), &validate(), &evidence));
    let mut known = VecMap::new();
    known.insert(EraId(0), vec![key(1)]);
    assert!(supervisor.can_handle_result(EraId(1), &validate(), &known));
    let late: ConsensusProtocolResult<u32> = ConsensusProtocolResult::NewEvidence(key(1));
    assert!(!supervisor.can_handle_result(EraId(u64::MAX), &late, &evidence));
}
