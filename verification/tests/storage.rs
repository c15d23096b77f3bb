//! Tests of the storage component.

use casper_node::chainspec::{Chainspec, GenesisConfig, HighwayConfig};
use casper_node::deploy::{Deploy, DeployConfig, DeployHeader};
use casper_node::hash::{BlockHash, DeployHash, Digest};
use casper_node::keys::PublicKey;
use casper_node::storage::{
    load_block_deploys, load_block_proposer_state, pending_deploys, Answer, BlockMetadata, Effect,
    Event, InMemStorage, StorageRequest, StorageType, Value, WithBlockHeight,
};
use casper_node::timestamp::{TimeDiff, Timestamp};
use casper_node::types::{Block, BlockHeader, EraId, ExecutionResult};
use casper_node::uint::U512;
use casper_node::version::Version;
use std::rc::Rc;

fn digest(n: u8) -> Digest {
    Digest([n; 32])
}

fn block(n: u8, height: u64, timestamp: u64, deploys: Vec<DeployHash>) -> Rc<Block> {
    Rc::new(Block {
        hash: digest(n),
        header: Rc::new(BlockHeader {
            parent_hash: digest(0),
            state_root_hash: digest(0),
            deploy_hashes: deploys,
            transfer_hashes: vec![],
            timestamp: Timestamp(timestamp),
            era_id: EraId(0),
            height,
            switch_block: false,
        }),
    })
}

fn deploy(n: u8, timestamp: u64) -> Rc<Deploy> {
    Rc::new(Deploy {
        hash: digest(n),
        header: Rc::new(DeployHeader {
            account: PublicKey::Ed25519([n; 32]),
            timestamp: Timestamp(timestamp),
            ttl: TimeDiff(1_000),
            gas_price: 1,
            body_hash: digest(0),
            dependencies: vec![],
            chain_name: "chain".to_string(),
        }),
        body: vec![n],
    })
}

fn chainspec() -> Rc<Chainspec> {
    let mut deploy_config = DeployConfig::default();
    deploy_config.max_ttl = TimeDiff(1_000);
    Rc::new(Chainspec {
        genesis: GenesisConfig {
            name: "chain".to_string(),
            timestamp: Timestamp(0),
            highway_config: HighwayConfig {
                genesis_era_start_timestamp: Timestamp(0),
                era_duration: TimeDiff(1),
                minimum_era_height: 1,
                finality_threshold_percent: 10,
                minimum_round_exponent: 4,
            },
            deploy_config,
        },
        upgrades: vec![],
    })
}

type TestStorage = InMemStorage<Block, Deploy>;

fn ask(storage: &mut TestStorage, request: StorageRequest<Block, Deploy>) -> Answer<Block, Deploy> {
    match storage.handle_event::<u32>(Event::Request(9, request)) {
        Effect::Respond(9, answer) => answer,
        _ => panic!("an answer was expected"),
    }
}

fn found(answer: Answer<Block, Deploy>) -> Option<BlockHash> {
    match answer {
        Answer::Block(block) => block.map(|block| block.hash),
        _ => panic!("a block was expected"),
    }
}

#[test]
fn blocks_are_found_again() {
    let mut storage: TestStorage = InMemStorage::new();
    assert_eq!(found(ask(&mut storage, StorageRequest::GetHighestBlock)), None);
    for (n, height) in [(1u8, 5u64), (2u8, 7u64), (3u8, 6u64)].iter() {
        let answer = ask(
            &mut storage,
            StorageRequest::PutBlock {
                block: block(*n, *height, 0, vec![]),
            },
        );
        assert!(matches!(answer, Answer::Stored(true)));
    }
    // A block that is there already is not stored again.
    let answer = ask(
        &mut storage,
        StorageRequest::PutBlock {
            block: block(1, 5, 0, vec![]),
        },
    );
    assert!(matches!(answer, Answer::Stored(false)));
    let get = StorageRequest::GetBlock {
        block_hash: digest(3),
    };
    assert_eq!(found(ask(&mut storage, get)), Some(digest(3)));
    let get = StorageRequest::GetBlock {
        block_hash: digest(4),
    };
    assert_eq!(found(ask(&mut storage, get)), None);
    let get = StorageRequest::GetBlockAtHeight { height: 6 };
    assert_eq!(found(ask(&mut storage, get)), Some(digest(3)));
    let get = StorageRequest::GetBlockAtHeight { height: 8 };
    assert_eq!(found(ask(&mut storage, get)), None);
    assert_eq!(
        found(ask(&mut storage, StorageRequest::GetHighestBlock)),
        Some(digest(2))
    );
    let get = StorageRequest::GetBlockHeader {
        block_hash: digest(2),
    };
    match ask(&mut storage, get) {
        Answer::BlockHeader(Some(header)) => assert_eq!(header.height, 7),
        _ => panic!("the header should be there"),
    }
}

#[test]
fn first_block_at_a_height_keeps_its_place() {
    let mut storage: TestStorage = InMemStorage::new();
    assert!(storage.put_block(block(1, 5, 0, vec![])));
    assert!(!storage.put_block(block(2, 5, 0, vec![])));
    assert_eq!(
        storage.get_block_at_height(5).map(|b| b.hash),
        Some(digest(1))
    );
    assert_eq!(storage.get_block(digest(2)).map(|b| b.hash), Some(digest(2)));
}

#[test]
fn deploys_are_found_again() {
    let mut storage: TestStorage = InMemStorage::new();
    let put = StorageRequest::PutDeploy {
        deploy: deploy(1, 100),
    };
    assert!(matches!(ask(&mut storage, put), Answer::Stored(true)));
    let put = StorageRequest::PutDeploy {
        deploy: deploy(1, 100),
    };
    assert!(matches!(ask(&mut storage, put), Answer::Stored(false)));
    let get = StorageRequest::GetDeploys {
        deploy_hashes: vec![digest(2), digest(1)],
    };
    match ask(&mut storage, get) {
        Answer::Deploys(deploys) => {
            assert_eq!(deploys.len(), 2);
            assert!(deploys[0].is_none());
            assert_eq!(deploys[1].as_ref().map(|d| d.hash), Some(digest(1)));
        }
        _ => panic!("deploys were expected"),
    }
    let get = StorageRequest::GetDeployHeaders {
        deploy_hashes: vec![digest(1)],
    };
    match ask(&mut storage, get) {
        Answer::DeployHeaders(headers) => {
            assert_eq!(headers[0].as_ref().map(|h| h.timestamp), Some(Timestamp(100)));
        }
        _ => panic!("headers were expected"),
    }
    let effect = storage.handle_event(Event::GetDeployForPeer {
        deploy_hash: digest(1),
        peer: 5u32,
    });
    assert!(matches!(effect, Effect::SendGetResponse { peer: 5, .. }));
    let effect = storage.handle_event(Event::GetDeployForPeer {
        deploy_hash: digest(2),
        peer: 5u32,
    });
    assert!(matches!(effect, Effect::Nothing));
}

#[test]
fn first_result_stays() {
    let mut storage: TestStorage = InMemStorage::new();
    storage.put_deploy(deploy(1, 100));
    for cost in [10u64, 20u64].iter() {
        let result = Rc::new(ExecutionResult::Success {
            cost: U512::from_u64(*cost),
        });
        let put = StorageRequest::PutExecutionResults {
            block_hash: digest(50),
            execution_results: vec![(digest(1), result)],
        };
        assert!(matches!(ask(&mut storage, put), Answer::Done));
    }
    let get = StorageRequest::GetDeployAndMetadata {
        deploy_hash: digest(1),
    };
    match ask(&mut storage, get) {
        Answer::DeployAndMetadata(Some((deploy, metadata))) => {
            assert_eq!(deploy.hash, digest(1));
            assert_eq!(metadata.execution_results.len(), 1);
            match &**metadata.execution_results.value_at(0) {
                ExecutionResult::Success { cost } => assert_eq!(*cost, U512::from_u64(10)),
                _ => panic!("the execution succeeded"),
            }
        }
        _ => panic!("the deploy should be there"),
    }
    let get = StorageRequest::GetDeployAndMetadata {
        deploy_hash: digest(2),
    };
    assert!(matches!(
        ask(&mut storage, get),
        Answer::DeployAndMetadata(None)
    ));
}

#[test]
fn chainspecs_are_told_apart_by_version() {
    let mut storage: TestStorage = InMemStorage::new();
    let put = StorageRequest::PutChainspec {
        version: Version::new(1, 0, 0),
        chainspec: chainspec(),
    };
    assert!(matches!(ask(&mut storage, put), Answer::Done));
    let mut pre_release = Version::new(1, 0, 0);
    pre_release.pre = Some(Rc::new("alpha".to_string()));
    let get = StorageRequest::GetChainspec {
        version: pre_release,
    };
    assert!(matches!(ask(&mut storage, get), Answer::Chainspec(None)));
    let get = StorageRequest::GetChainspec {
        version: Version::new(1, 0, 0),
    };
    assert!(matches!(ask(&mut storage, get), Answer::Chainspec(Some(_))));
}

#[test]
fn proposer_state_is_loaded() {
    let mut storage: TestStorage = InMemStorage::new();
    storage.store_chainspec(Version::new(1, 0, 0), chainspec());
    for n in 1..5u8 {
        storage.put_deploy(deploy(n, 5_000));
    }
    // The first block is too old to matter.
    storage.put_block(block(100, 0, 1_000, vec![digest(1)]));
    storage.put_block(block(101, 1, 4_500, vec![digest(2), digest(77)]));
    storage.put_block(block(102, 2, 5_000, vec![digest(3)]));
    let loaded = match storage.get_block_at_height(1) {
        Some(block) => load_block_deploys(&storage, &block),
        None => panic!("the block should be there"),
    };
    assert_eq!(loaded.len(), 1);
    let state = load_block_proposer_state(
        &storage,
        2,
        &Version::new(1, 0, 0),
        Timestamp(5_400),
    );
    assert_eq!(state.finalized_deploys.len(), 2);
    assert!(state.finalized_deploys.contains_key(&digest(2)));
    assert!(state.finalized_deploys.contains_key(&digest(3)));
    assert_eq!(state.pending.len(), 2);
    assert!(state.pending.contains_key(&digest(1)));
    assert!(state.pending.contains_key(&digest(4)));
}

#[test]
fn loading_stops_at_an_expired_deploy() {
    let deploys = vec![deploy(1, 5_000), deploy(2, 1_000), deploy(3, 5_000)];
    let none = casper_node::collections::VecMap::new();
    let pending = pending_deploys(&deploys, &none, Timestamp(5_500));
    assert_eq!(pending.len(), 1);
    assert!(pending.contains_key(&digest(1)));
}

#[test]
fn values_know_their_headers() {
    let block = block(1, 5, 0, vec![]);
    assert_eq!(*block.id(), digest(1));
    assert_eq!(block.height(), 5);
    let deploy = deploy(2, 7);
    assert_eq!(*Value::id(&*deploy), digest(2));
    assert_eq!(Value::header(&*deploy).timestamp, Timestamp(7));
    assert!(BlockMetadata::default().proofs.is_empty());
}
