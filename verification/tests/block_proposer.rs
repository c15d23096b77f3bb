//! Tests of the block proposer.

use casper_node::block_proposer::{
    BlockProposer, BlockProposerState, Effect, Event, ListForInclusionRequest,
};
use casper_node::collections::VecSet;
use casper_node::deploy::{DeployConfig, DeployHeader};
use casper_node::hash::{DeployHash, Digest};
use casper_node::keys::PublicKey;
use casper_node::timestamp::{TimeDiff, Timestamp};
use casper_node::types::ProtoBlock;
use casper_node::version::Version;
use std::rc::Rc;

fn hash(n: u8) -> DeployHash {
    Digest([n; 32])
}

fn generate_deploy(
    n: u8,
    timestamp: Timestamp,
    ttl: TimeDiff,
    dependencies: Vec<DeployHash>,
) -> (DeployHash, Rc<DeployHeader>) {
    let header = DeployHeader {
        account: PublicKey::Ed25519([n; 32]),
        timestamp,
        ttl,
        gas_price: 10,
        body_hash: Digest([0; 32]),
        dependencies,
        chain_name: "chain".to_string(),
    };
    (hash(n), Rc::new(header))
}

fn create_test_buffer() -> (BlockProposer, Vec<Effect>) {
    BlockProposer::new(BlockProposerState::default())
}

fn items(set: &VecSet<DeployHash>) -> Vec<DeployHash> {
    (0..set.len()).map(|i| set.item_at(i)).collect()
}

#[test]
fn add_and_take_deploys() {
    let creation_time = Timestamp::from(100);
    let ttl = TimeDiff::from(100);
    let block_time1 = Timestamp::from(80);
    let block_time2 = Timestamp::from(120);
    let block_time3 = Timestamp::from(220);

    let no_deploys: VecSet<DeployHash> = VecSet::new();
    let (mut buffer, _effects) = create_test_buffer();
    let (hash1, deploy1) = generate_deploy(1, creation_time, ttl, vec![]);
    let (hash2, deploy2) = generate_deploy(2, creation_time, ttl, vec![]);
    let (hash3, deploy3) = generate_deploy(3, creation_time, ttl, vec![]);
    let (hash4, deploy4) = generate_deploy(4, creation_time, ttl, vec![]);

    assert!(buffer
        .propose_deploys(DeployConfig::default(), block_time2, &no_deploys)
        .is_empty());

    // add two deploys
    buffer.add_deploy(block_time2, hash1, deploy1);
    buffer.add_deploy(block_time2, hash2, deploy2);

    // if we try to create a block with a timestamp that is too early, we shouldn't get any
    // deploys
    assert!(buffer
        .propose_deploys(DeployConfig::default(), block_time1, &no_deploys)
        .is_empty());

    // if we try to create a block with a timestamp that is too late, we shouldn't get any
    // deploys, either
    assert!(buffer
        .propose_deploys(DeployConfig::default(), block_time3, &no_deploys)
        .is_empty());

    // take the deploys out
    let deploys = buffer.propose_deploys(DeployConfig::default(), block_time2, &no_deploys);

    assert_eq!(deploys.len(), 2);
    assert!(deploys.contains(&hash1));
    assert!(deploys.contains(&hash2));

    // the deploys should not have been removed
    assert_eq!(
        buffer
            .propose_deploys(DeployConfig::default(), block_time2, &no_deploys)
            .len(),
        2
    );

    // but they shouldn't be returned if we include it in the past deploys
    assert!(buffer
        .propose_deploys(DeployConfig::default(), block_time2, &deploys)
        .is_empty());

    // finalize the block
    buffer.finalized_deploys(&items(&deploys));

    // add more deploys
    buffer.add_deploy(block_time2, hash3, deploy3);
    buffer.add_deploy(block_time2, hash4, deploy4);

    let deploys = buffer.propose_deploys(DeployConfig::default(), block_time2, &no_deploys);

    // since block 1 is now finalized, neither deploy1 nor deploy2 should be among the ones
    // returned
    assert_eq!(deploys.len(), 2);
    assert!(deploys.contains(&hash3));
    assert!(deploys.contains(&hash4));
}

#[test]
fn test_prune() {
    let expired_time = Timestamp::from(201);
    let creation_time = Timestamp::from(100);
    let test_time = Timestamp::from(120);
    let ttl = TimeDiff::from(100);

    let (hash1, deploy1) = generate_deploy(1, creation_time, ttl, vec![]);
    let (hash2, deploy2) = generate_deploy(2, creation_time, ttl, vec![]);
    let (hash3, deploy3) = generate_deploy(3, creation_time, ttl, vec![]);
    let (hash4, deploy4) =
        generate_deploy(4, creation_time + TimeDiff::from(20 * 1_000), ttl, vec![]);
    let (mut buffer, _effects) = create_test_buffer();

    // pending
    buffer.add_deploy(creation_time, hash1, deploy1);
    buffer.add_deploy(creation_time, hash2, deploy2);
    buffer.add_deploy(creation_time, hash3, deploy3);
    buffer.add_deploy(creation_time, hash4, deploy4);

    // pending => finalized
    buffer.finalized_deploys(&vec![hash1]);

    assert_eq!(buffer.state.pending.len(), 3);
    assert!(buffer.state.finalized_deploys.contains_key(&hash1));

    // test for retained values
    let pruned = buffer.prune(test_time);
    assert_eq!(pruned, 0);

    assert_eq!(buffer.state.pending.len(), 3);
    assert_eq!(buffer.state.finalized_deploys.len(), 1);
    assert!(buffer.state.finalized_deploys.contains_key(&hash1));

    // now move the clock to make some things expire
    let pruned = buffer.prune(expired_time);
    assert_eq!(pruned, 3);

    assert_eq!(buffer.state.pending.len(), 1); // deploy4 is still valid
    assert_eq!(buffer.state.finalized_deploys.len(), 0);
}

#[test]
fn test_deploy_dependencies() {
    let creation_time = Timestamp::from(100);
    let ttl = TimeDiff::from(100);
    let block_time = Timestamp::from(120);

    let (hash1, deploy1) = generate_deploy(1, creation_time, ttl, vec![]);
    // let deploy2 depend on deploy1
    let (hash2, deploy2) = generate_deploy(2, creation_time, ttl, vec![hash1]);

    let no_deploys: VecSet<DeployHash> = VecSet::new();
    let (mut buffer, _effects) = create_test_buffer();

    // add deploy2
    buffer.add_deploy(creation_time, hash2, deploy2);

    // deploy2 has an unsatisfied dependency
    assert!(buffer
        .propose_deploys(DeployConfig::default(), block_time, &no_deploys)
        .is_empty());

    // add deploy1
    buffer.add_deploy(creation_time, hash1, deploy1);

    let deploys = buffer.propose_deploys(DeployConfig::default(), block_time, &no_deploys);
    // only deploy1 should be returned, as it has no dependencies
    assert_eq!(deploys.len(), 1);
    assert!(deploys.contains(&hash1));

    // the deploy will be included in block 1
    buffer.finalized_deploys(&items(&deploys));

    let deploys2 = buffer.propose_deploys(DeployConfig::default(), block_time, &no_deploys);
    // `blocks` contains a block that contains deploy1 now, so we should get deploy2
    assert_eq!(deploys2.len(), 1);
    assert!(deploys2.contains(&hash2));
}

fn request(next_finalized: u64, responder: u64) -> ListForInclusionRequest {
    ListForInclusionRequest {
        current_instant: Timestamp(120),
        past_deploys: VecSet::new(),
        next_finalized,
        responder,
    }
}

fn proto_block(n: u8, deploys: Vec<DeployHash>) -> ProtoBlock {
    ProtoBlock {
        hash: hash(n),
        deploys,
        transfers: vec![],
        random_bit: false,
    }
}

#[test]
fn rejected_deploys_are_told() {
    let (mut buffer, effects) = create_test_buffer();
    assert!(matches!(
        effects[..],
        [Effect::SetTimeout(TimeDiff(10_000))]
    ));
    let (hash1, deploy1) = generate_deploy(1, Timestamp(100), TimeDiff(100), vec![]);
    assert!(!buffer.add_deploy(Timestamp(201), hash1, deploy1.clone()));
    assert!(buffer.add_deploy(Timestamp(200), hash1, deploy1.clone()));
    buffer.finalized_deploys(&vec![hash1]);
    assert!(!buffer.add_deploy(Timestamp(120), hash1, deploy1));
}

#[test]
fn no_more_deploys_than_a_block_can_have() {
    let (mut buffer, _effects) = create_test_buffer();
    for n in 0..20u8 {
        let (hash, deploy) = generate_deploy(n, Timestamp(100), TimeDiff(100), vec![]);
        assert!(buffer.add_deploy(Timestamp(100), hash, deploy));
    }
    let none: VecSet<DeployHash> = VecSet::new();
    let deploys = buffer.propose_deploys(DeployConfig::default(), Timestamp(120), &none);
    assert_eq!(deploys.len(), 10);
}

#[test]
fn requests_wait_for_finalized_blocks() {
    let (mut buffer, _effects) = create_test_buffer();
    // The proposer has not heard of block 1 yet.
    let effects = buffer.handle_event(Event::Request(request(2, 77)), Timestamp(120));
    assert!(effects.is_empty());
    // Block 1 is finalized, but the news of block 0 is still missing.
    let effects = buffer.handle_event(
        Event::FinalizedProtoBlock {
            block: proto_block(101, vec![]),
            height: 1,
        },
        Timestamp(120),
    );
    assert!(effects.is_empty());
    assert_eq!(buffer.state.next_finalized, 0);
    let effects = buffer.handle_event(
        Event::FinalizedProtoBlock {
            block: proto_block(100, vec![]),
            height: 0,
        },
        Timestamp(120),
    );
    assert_eq!(buffer.state.next_finalized, 2);
    assert_eq!(effects.len(), 1);
    for effect in effects {
        match effect {
            Effect::GetChainspec {
                chainspec_version,
                request,
            } => {
                assert!(chainspec_version.same_version(&Version::new(1, 0, 0)));
                assert_eq!(request.responder, 77);
                let effects = buffer.handle_event(
                    Event::GetChainspecResult {
                        maybe_deploy_config: Some(DeployConfig::default()),
                        chainspec_version,
                        request,
                    },
                    Timestamp(120),
                );
                assert!(matches!(
                    effects[..],
                    [Effect::Respond { responder: 77, .. }]
                ));
            }
            _ => panic!("the chainspec is not known yet"),
        }
    }
    // Now the rules are remembered.
    let effects = buffer.handle_event(Event::Request(request(2, 78)), Timestamp(120));
    assert!(matches!(effects[..], [Effect::ChainspecCached { .. }]));
}

#[test]
fn order_of_news_does_not_matter() {
    let run = |first_height: u64, second_height: u64| {
        let (mut buffer, _effects) = create_test_buffer();
        for n in 0..3u8 {
            let (hash, deploy) = generate_deploy(n, Timestamp(100), TimeDiff(100), vec![]);
            buffer.add_deploy(Timestamp(100), hash, deploy);
        }
        for height in [first_height, second_height].iter() {
            buffer.handle_event(
                Event::FinalizedProtoBlock {
                    block: proto_block(50 + *height as u8, vec![hash(*height as u8)]),
                    height: *height,
                },
                Timestamp(120),
            );
        }
        (
            buffer.state.next_finalized,
            buffer.state.pending.len(),
            buffer.state.finalized_deploys.contains_key(&hash(0)),
            buffer.state.finalized_deploys.contains_key(&hash(1)),
            buffer.state.finalization_queue.len(),
        )
    };
    assert_eq!(run(0, 1), (2, 1, true, true, 0));
    assert_eq!(run(1, 0), (2, 1, true, true, 0));
}

#[test]
fn pruning_goes_on() {
    let (mut buffer, _effects) = create_test_buffer();
    let (hash1, deploy1) = generate_deploy(1, Timestamp(100), TimeDiff(100), vec![]);
    buffer.handle_event(
        Event::Buffer {
            hash: hash1,
            header: deploy1,
        },
        Timestamp(100),
    );
    assert_eq!(buffer.state.to_text(), "(pending:1, finalized:0)");
    let effects = buffer.handle_event(Event::BufferPrune, Timestamp(201));
    assert!(matches!(
        effects[..],
        [Effect::SetTimeout(TimeDiff(10_000))]
    ));
    assert_eq!(buffer.state.pending.len(), 0);
}

#[test]
fn event_texts() {
    assert_eq!(Event::BufferPrune.to_text(""), "buffer prune");
    let event = Event::FinalizedProtoBlock {
        block: proto_block(1, vec![]),
        height: 42,
    };
    assert_eq!(
        event.to_text("B"),
        "deploy-buffer finalized proto block B at height 42"
    );
    let event = Event::GetChainspecResult {
        maybe_deploy_config: None,
        chainspec_version: Version::new(1, 0, 0),
        request: request(0, 1),
    };
    assert_eq!(event.to_text(""), "deploy-buffer failed to get chainspec");
}

#[test]
fn only_deploys_of_finalized_blocks_are_finalized() {
    let (mut buffer, _effects) = create_test_buffer();
    for n in 0..2u8 {
        let (hash, deploy) = generate_deploy(n, Timestamp(100), TimeDiff(100), vec![]);
        assert!(buffer.add_deploy(Timestamp(100), hash, deploy));
    }
    let mut block = proto_block(50, vec![hash(0)]);
    block.transfers = vec![hash(1)];
    buffer.handle_event(
        Event::FinalizedProtoBlock { block, height: 0 },
        Timestamp(120),
    );
    assert!(buffer.state.finalized_deploys.contains_key(&hash(0)));
    assert!(!buffer.state.finalized_deploys.contains_key(&hash(1)));
    assert!(buffer.state.pending.contains_key(&hash(1)));
}
