//! Tests of the block validator and of blocks under construction.

use casper_node::appendable_block::{AddError, AppendableBlock};
use casper_node::block_validator::keyed_counter::KeyedCounter;
use casper_node::block_validator::{
    fetched_deploy, BlockLike, BlockValidationRequest, BlockValidator, Effect, Event,
};
use casper_node::deploy::{DeployConfig, DeployHeader, DeployType};
use casper_node::hash::{DeployHash, Digest};
use casper_node::keys::PublicKey;
use casper_node::linear_chain_sync::FetchResult;
use casper_node::timestamp::{TimeDiff, Timestamp};
use casper_node::types::ProtoBlock;
use casper_node::uint::U512;
use std::rc::Rc;

fn hash(n: u8) -> DeployHash {
    Digest([n; 32])
}

fn header(gas_price: u64) -> Rc<DeployHeader> {
    Rc::new(DeployHeader {
        account: PublicKey::Ed25519([0; 32]),
        timestamp: Timestamp(100),
        ttl: TimeDiff(100),
        gas_price,
        body_hash: Digest([0; 32]),
        dependencies: vec![],
        chain_name: "chain".to_string(),
    })
}

fn deploy(payment: u64, size: usize) -> DeployType {
    DeployType::Other {
        header: header(1),
        payment_amount: U512::from_u64(payment),
        size,
    }
}

fn transfer() -> DeployType {
    DeployType::Transfer {
        header: header(1),
        payment_amount: U512::from_u64(1),
        size: 1,
    }
}

fn proto_block(n: u8, deploys: Vec<DeployHash>, transfers: Vec<DeployHash>) -> Rc<ProtoBlock> {
    Rc::new(ProtoBlock {
        hash: hash(n),
        deploys,
        transfers,
        random_bit: false,
    })
}

fn request(block: &Rc<ProtoBlock>, sender: u32, responder: u64) -> Event<ProtoBlock, u32> {
    Event::Request(BlockValidationRequest {
        block: block.clone(),
        sender,
        responder,
        block_timestamp: Timestamp(120),
    })
}

fn answers(effects: &Vec<Effect<ProtoBlock, u32>>) -> Vec<(u64, bool)> {
    let mut answers = vec![];
    for effect in effects.iter() {
        if let Effect::Respond {
            responder, valid, ..
        } = effect
        {
            answers.push((*responder, *valid));
        }
    }
    answers
}

fn fetches(effects: &Vec<Effect<ProtoBlock, u32>>) -> Vec<(DeployHash, u32)> {
    let mut fetches = vec![];
    for effect in effects.iter() {
        if let Effect::FetchDeploy {
            deploy_hash,
            sender,
        } = effect
        {
            fetches.push((*deploy_hash, *sender));
        }
    }
    fetches
}

#[test]
fn empty_block_is_valid() {
    let mut validator: BlockValidator<ProtoBlock, u32> =
        BlockValidator::new(DeployConfig::default());
    let block = proto_block(1, vec![], vec![]);
    let effects = validator.handle_event(request(&block, 5, 1));
    assert_eq!(answers(&effects), vec![(1, true)]);
}

#[test]
fn block_is_valid_once_all_deploys_are_found() {
    let mut validator: BlockValidator<ProtoBlock, u32> =
        BlockValidator::new(DeployConfig::default());
    let block = proto_block(1, vec![hash(10)], vec![hash(11)]);
    assert_eq!(block.deploys(), vec![hash(10), hash(11)]);
    let effects = validator.handle_event(request(&block, 5, 1));
    assert_eq!(answers(&effects), vec![]);
    assert_eq!(fetches(&effects), vec![(hash(10), 5), (hash(11), 5)]);
    // Somebody else wants to know too.
    let effects = validator.handle_event(request(&block, 6, 2));
    assert_eq!(answers(&effects), vec![]);
    let effects = validator.handle_event(Event::DeployFound {
        deploy_hash: hash(10),
        deploy_type: deploy(1, 1),
    });
    assert_eq!(answers(&effects), vec![]);
    let effects = validator.handle_event(Event::DeployFound {
        deploy_hash: hash(11),
        deploy_type: transfer(),
    });
    assert_eq!(answers(&effects), vec![(1, true), (2, true)]);
}

#[test]
fn only_fails_if_all_sources_are_exhausted() {
    let mut validator: BlockValidator<ProtoBlock, u32> =
        BlockValidator::new(DeployConfig::default());
    let block = proto_block(1, vec![hash(10)], vec![]);
    validator.handle_event(request(&block, 5, 1));
    validator.handle_event(request(&block, 6, 2));
    let effects = validator.handle_event(Event::DeployMissing(hash(10)));
    assert_eq!(answers(&effects), vec![]);
    assert_eq!(fetches(&effects).len(), 1);
    let mut effects = validator.handle_event(Event::DeployMissing(hash(10)));
    let mut rounds = 0;
    while answers(&effects).is_empty() && rounds < 5 {
        effects = validator.handle_event(Event::DeployMissing(hash(10)));
        rounds += 1;
    }
    assert_eq!(answers(&effects), vec![(1, false), (2, false)]);
}

#[test]
fn bad_deploy_makes_block_invalid() {
    let mut validator: BlockValidator<ProtoBlock, u32> =
        BlockValidator::new(DeployConfig::default());
    let block = proto_block(1, vec![hash(10), hash(11)], vec![]);
    validator.handle_event(request(&block, 5, 1));
    let effects = validator.handle_event(Event::CannotConvertDeploy(hash(10)));
    assert_eq!(answers(&effects), vec![(1, false)]);
}

#[test]
fn replayed_deploys_are_reported() {
    let mut validator: BlockValidator<ProtoBlock, u32> =
        BlockValidator::new(DeployConfig::default());
    let block = proto_block(1, vec![hash(10), hash(11), hash(10)], vec![]);
    let effects = validator.handle_event(request(&block, 5, 1));
    assert_eq!(answers(&effects), vec![(1, false)]);
    let mut reported = vec![];
    for effect in effects.iter() {
        if let Effect::ReportReplay { sender, duplicates } = effect {
            assert_eq!(*sender, 5);
            for i in 0..duplicates.len() {
                reported.push((duplicates.key_at(i), *duplicates.value_at(i)));
            }
        }
    }
    assert_eq!(reported, vec![(hash(10), 2)]);
}

#[test]
fn limits_of_a_block_are_kept() {
    let mut config = DeployConfig::default();
    config.block_max_transfer_count = 1;
    config.block_max_deploy_count = 2;
    config.max_block_size = 100;
    config.block_gas_limit = 1_000;
    let mut block = AppendableBlock::new(config, Timestamp(120));
    assert_eq!(block.add(hash(1), &transfer()), Ok(()));
    assert_eq!(block.add(hash(1), &transfer()), Err(AddError::Duplicate));
    assert_eq!(block.add(hash(2), &transfer()), Err(AddError::TransferCount));
    assert_eq!(block.add(hash(3), &deploy(10, 101)), Err(AddError::BlockSize));
    assert_eq!(block.add(hash(3), &deploy(1_001, 10)), Err(AddError::GasLimit));
    let free = DeployType::Other {
        header: header(0),
        payment_amount: U512::from_u64(1),
        size: 1,
    };
    assert_eq!(block.add(hash(3), &free), Err(AddError::InvalidGasAmount));
    assert_eq!(block.add(hash(3), &deploy(600, 60)), Ok(()));
    assert_eq!(block.add(hash(4), &deploy(1, 41)), Err(AddError::BlockSize));
    assert_eq!(block.add(hash(4), &deploy(401, 1)), Err(AddError::GasLimit));
    assert_eq!(block.add(hash(4), &deploy(400, 40)), Ok(()));
    assert_eq!(block.add(hash(5), &deploy(0, 0)), Err(AddError::DeployCount));
    let mut late = AppendableBlock::new(config, Timestamp(201));
    assert_eq!(late.add(hash(1), &transfer()), Err(AddError::InvalidDeploy));
}

#[test]
fn counters_go_up_and_down() {
    let mut counter: KeyedCounter<u64> = KeyedCounter::new();
    assert_eq!(counter.inc(&7), 1);
    assert_eq!(counter.inc(&7), 2);
    assert_eq!(counter.inc(&8), 1);
    assert_eq!(counter.dec(&7), 1);
    assert_eq!(counter.dec(&7), 0);
    assert_eq!(counter.inc(&7), 1);
}

#[test]
fn event_names() {
    let event: Event<ProtoBlock, u32> = Event::DeployMissing(hash(1));
    assert_eq!(event.to_text("D"), "deploy D missing");
}

#[test]
fn fetching_leads_to_events() {
    let event: Event<ProtoBlock, u32> =
        fetched_deploy(hash(1), Some(FetchResult::FromStorage(Some(transfer()))));
    assert!(matches!(event, Event::DeployFound { deploy_hash, .. } if deploy_hash == hash(1)));
    let event: Event<ProtoBlock, u32> =
        fetched_deploy(hash(1), Some(FetchResult::FromPeer(Some(transfer()), 5)));
    assert!(matches!(event, Event::DeployFound { .. }));
    let event: Event<ProtoBlock, u32> =
        fetched_deploy(hash(1), Some(FetchResult::FromPeer(None, 5)));
    assert!(matches!(event, Event::CannotConvertDeploy(h) if h == hash(1)));
    let event: Event<ProtoBlock, u32> = fetched_deploy(hash(1), None);
    assert!(matches!(event, Event::DeployMissing(h) if h == hash(1)));
}

#[test]
fn unasked_answers_cannot_be_handled() {
    let mut validator: BlockValidator<ProtoBlock, u32> =
        BlockValidator::new(DeployConfig::default());
    assert!(!validator.can_handle_event(&Event::DeployMissing(hash(10))));
    let block = proto_block(1, vec![hash(10)], vec![]);
    assert!(validator.can_handle_event(&request(&block, 5, 1)));
    validator.handle_event(request(&block, 5, 1));
    assert!(validator.can_handle_event(&Event::DeployMissing(hash(10))));
    assert!(validator.can_handle_event(&Event::CannotConvertDeploy(hash(10))));
    assert!(validator.can_handle_event(&Event::DeployFound {
        deploy_hash: hash(10),
        deploy_type: transfer(),
    }));
    assert!(!validator.can_handle_event(&Event::CannotConvertDeploy(hash(11))));
}
