//! Tests of times, numbers, hashes, collections and texts.

use casper_node::bytes::{append_le_bytes, leading_le_u64};
use casper_node::collections::{VecMap, VecSet};
use casper_node::hash::{hash, Digest};
use casper_node::keys::{AccountHash, Key, PublicKey, URef};
use casper_node::linear_chain_sync::Event as SyncEvent;
use casper_node::network::{network_online, others_received, DummyPayload, NodeStatus};
use casper_node::ordered::OrderedMap;
use casper_node::reactor::{
    init_events, ApiServerEvent, ConsensusEvent, ContractRuntimeEvent, DeployGossiperEvent, Event,
    Message, NetworkEvent, NetworkRequest, Parts, PingerEvent, Route,
};
use casper_node::text::decimal_string;
use casper_node::timestamp::{TimeDiff, Timestamp};
use casper_node::uint::U512;
use rand::rngs::StdRng;
use rand::SeedableRng;

#[test]
fn arithmetic_of_times() {
    let later = Timestamp(300);
    let earlier = Timestamp(100);
    assert_eq!(later - earlier, TimeDiff(200));
    assert_eq!(earlier + (later - earlier), later);
    assert_eq!(later - TimeDiff(50), Timestamp(250));
    assert_eq!(later.saturating_sub(earlier), TimeDiff(200));
    assert_eq!(earlier.saturating_sub(later), TimeDiff(0));
    assert_eq!(later / TimeDiff(70), 4);
    assert_eq!(later % TimeDiff(70), TimeDiff(20));
    assert_eq!(Timestamp(0b1011) >> 1, Timestamp(0b101));
    assert_eq!(Timestamp(0b1011) << 1, Timestamp(0b10110));
    assert_eq!(TimeDiff(5) + TimeDiff(6), TimeDiff(11));
    assert_eq!(TimeDiff(6) - TimeDiff(5), TimeDiff(1));
    assert_eq!(TimeDiff(5) * 4, TimeDiff(20));
    assert_eq!(TimeDiff(21) / 4, TimeDiff(5));
    assert_eq!(Timestamp(40).trailing_zeros(), 3);
    assert_eq!(Timestamp(5).max(Timestamp(4)), Timestamp(5));
    assert_eq!(Timestamp::zero().millis(), 0);
    let mut time = Timestamp(1);
    time.add_assign(TimeDiff(2));
    assert_eq!(time, Timestamp(3));
}

#[test]
fn times_are_read_back() {
    for millis in [0u64, 7, 1_234_567, u64::MAX].iter() {
        let time = Timestamp(*millis);
        match Timestamp::parse(&time.to_text()) {
            Ok(back) => assert_eq!(back, time),
            Err(_) => panic!("a number was written"),
        }
    }
    assert!(Timestamp::parse("12a").is_err());
    assert!(Timestamp::parse("").is_err());
    assert!(Timestamp::parse("18446744073709551616").is_err());
    match "+15".parse::<TimeDiff>() {
        Ok(diff) => assert_eq!(diff, TimeDiff(15)),
        Err(_) => panic!("a sign is allowed"),
    }
}

#[test]
fn clock_and_chance() {
    match Timestamp::now() {
        Some(now) => assert!(now.millis() > 1_600_000_000_000),
        None => panic!("the clock should be past the epoch"),
    }
    assert_eq!(Timestamp::from_clock(Some(1_500)), Some(Timestamp(1_500)));
    // Only the low 64 bits count.
    assert_eq!(
        Timestamp::from_clock(Some((1u128 << 64) + 7)),
        Some(Timestamp(7))
    );
    assert_eq!(Timestamp::from_clock(None), None);
    let mut rng = StdRng::seed_from_u64(1);
    let first = Timestamp::random(&mut rng);
    assert!(first.millis() >= 1_596_763_200_000 && first.millis() < 1_596_764_000_000);
    let mut different = false;
    for _ in 0..10 {
        different = different || Timestamp::random(&mut rng) != first;
    }
    assert!(different);
}

#[test]
fn hash_of_nothing() {
    // BLAKE2b with 256 bits of output.
    let expected = [
        0x0e, 0x57, 0x51, 0xc0, 0x26, 0xe5, 0x43, 0xb2, 0xe8, 0xab, 0x2e, 0xb0, 0x60, 0x99, 0xda,
        0xa1, 0xd1, 0xe5, 0xdf, 0x47, 0x77, 0x8f, 0x77, 0x87, 0xfa, 0xab, 0x45, 0xcd, 0xf1, 0x2f,
        0xe3, 0xa8,
    ];
    assert_eq!(hash(&[]), Digest(expected));
    assert_ne!(hash(&[0]), hash(&[]));
}

#[test]
fn account_hash_of_a_key() {
    let mut bytes = b"ed25519".to_vec();
    bytes.push(0);
    bytes.extend_from_slice(&[5; 32]);
    assert_eq!(
        AccountHash::from_public_key(&PublicKey::Ed25519([5; 32])),
        AccountHash(hash(&bytes))
    );
    let mut bytes = b"secp256k1".to_vec();
    bytes.push(0);
    bytes.extend_from_slice(&[5; 33]);
    assert_eq!(
        AccountHash::from_public_key(&PublicKey::Secp256k1([5; 33])),
        AccountHash(hash(&bytes))
    );
}

#[test]
fn references() {
    let uref = URef {
        addr: [0xab; 32],
        access_rights: 0o17,
    };
    assert_eq!(
        uref.to_formatted_string(),
        "uref-abababababababababababababababababababababababababababababababab-017"
    );
    assert_eq!(Key::URef(uref).into_uref(), Some(uref));
    assert_eq!(Key::Hash([1; 32]).into_uref(), None);
}

#[test]
fn long_numbers() {
    let big = U512 {
        d0: 0,
        d1: 1,
        d2: 0,
        d3: 0,
    };
    let one = U512::one();
    let below = big.minus(&one);
    assert_eq!(below.d0, u128::MAX);
    assert_eq!(below.plus(&one), big);
    assert_eq!(below.to_u64(), None);
    assert!(below.less_than(&big));
    assert_eq!(U512::from_u64(17).divided_by(&U512::from_u64(5)), U512::from_u64(3));
    let (quotient, remainder) = big.div_rem(&U512::from_u64(10));
    assert_eq!(
        quotient,
        U512 {
            d0: 34_028_236_692_093_846_346_337_460_743_176_821_145,
            d1: 0,
            d2: 0,
            d3: 0
        }
    );
    assert_eq!(remainder, U512::from_u64(6));
    assert_eq!(U512::zero().checked_sub(&one), None);
    assert!(U512::zero().is_zero());
}

#[test]
fn maps_keep_their_order() {
    let mut map: VecMap<u64, &str> = VecMap::new();
    assert_eq!(map.insert(3, "c"), None);
    assert_eq!(map.insert(1, "a"), None);
    assert_eq!(map.insert(3, "d"), Some("c"));
    assert_eq!(map.key_at(0), 3);
    assert_eq!(map.get(&3), Some(&"d"));
    assert_eq!(map.remove(&3), Some("d"));
    assert_eq!(map.len(), 1);
    let set = VecSet::from_vec(&vec![4u64, 2, 4]);
    assert_eq!(set.len(), 2);
    let mut ordered: OrderedMap<u64, &str> = OrderedMap::new();
    ordered.insert(3, "c");
    ordered.insert(1, "a");
    ordered.insert(2, "b");
    assert_eq!(ordered.into_entries(), vec![(1, "a"), (2, "b"), (3, "c")]);
}

#[test]
fn little_endian() {
    let mut bytes = vec![];
    append_le_bytes(&mut bytes, 0x0102);
    assert_eq!(bytes, vec![2, 1, 0, 0, 0, 0, 0, 0]);
    assert_eq!(leading_le_u64(&bytes), 0x0102);
    assert_eq!(decimal_string(1_000), "1000");
}

fn node(node_id: u64, seen_peers: usize, payloads: Vec<DummyPayload>) -> NodeStatus<u64> {
    NodeStatus {
        node_id,
        seen_peers,
        payloads,
    }
}

#[test]
fn network_is_online_when_all_know_enough_others() {
    let nodes = vec![node(1, 2, vec![]), node(2, 2, vec![]), node(3, 1, vec![])];
    assert!(!network_online(&nodes, 20));
    let nodes = vec![node(1, 2, vec![]), node(2, 2, vec![]), node(3, 2, vec![])];
    assert!(network_online(&nodes, 20));
    // In a large network half of a bucket is enough.
    let nodes: Vec<NodeStatus<u64>> = (0..30).map(|n| node(n, 10, vec![])).collect();
    assert!(network_online(&nodes, 20));
    let nodes: Vec<NodeStatus<u64>> = (0..30).map(|n| node(n, 9, vec![])).collect();
    assert!(!network_online(&nodes, 20));
}

#[test]
fn all_but_the_sender_receive() {
    let payload = DummyPayload(vec![1, 2, 3]);
    let got = || vec![DummyPayload(vec![9]), DummyPayload(vec![1, 2, 3])];
    let nodes = vec![node(1, 1, vec![]), node(2, 1, got()), node(3, 1, got())];
    assert!(others_received(&payload, 1, &nodes));
    assert!(!others_received(&payload, 2, &nodes));
    let nodes = vec![
        node(1, 1, vec![]),
        node(2, 1, vec![DummyPayload(vec![1, 2])]),
    ];
    assert!(!others_received(&payload, 1, &nodes));
}

#[test]
fn payloads() {
    let mut rng = StdRng::seed_from_u64(3);
    let payload = DummyPayload::random_with_size(&mut rng, 512);
    assert_eq!(payload.0.len(), 512);
    assert!(payload.0.iter().any(|byte| *byte != payload.0[0]));
    assert_eq!(
        DummyPayload(vec![1, 20, 255]).to_text(),
        "payload (3 bytes: [1, 20, 255]...)"
    );
    assert_eq!(
        DummyPayload((0..12).collect()).to_text(),
        "payload (12 bytes: [0, 1, 2, 3, 4, 5, 6, 7, 8, 9]...)"
    );
    assert_eq!(DummyPayload(vec![]).to_text(), "payload (0 bytes: []...)");
}

#[derive(Debug)]
struct TestParts;

impl Parts for TestParts {
    type NodeId = u32;
    type NetworkEvent = u8;
    type DeployQueueEvent = u8;
    type PingerEvent = u8;
    type StorageRequest = u8;
    type ApiServerEvent = u8;
    type ConsensusEvent = u8;
    type DeployGossiperEvent = u8;
    type ContractRuntimeEvent = u8;
    type ApiRequest = u8;
    type DeployQueueRequest = u8;
    type ContractRuntimeRequest = u8;
    type PingerMessage = u8;
    type ConsensusMessage = u8;
    type DeployGossiperMessage = u8;
    type Deploy = u8;
    type DeployHash = u8;
    type DeployHeader = u8;
}

type TestEvent = Event<TestParts>;

#[test]
fn events_are_routed() {
    let announce = |payload: Message<TestParts>| {
        Event::NetworkAnnouncement {
            sender: 7,
            payload,
        }
        .dispatch_event()
    };
    assert!(matches!(
        announce(Message::Consensus(1)),
        Route::Consensus(ConsensusEvent::MessageReceived { sender: 7, msg: 1 })
    ));
    assert!(matches!(
        announce(Message::Pinger(2)),
        Route::Pinger(PingerEvent::MessageReceived { sender: 7, msg: 2 })
    ));
    assert!(matches!(
        announce(Message::DeployGossiper(3)),
        Route::DeployGossiper(DeployGossiperEvent::MessageReceived {
            sender: 7,
            message: 3
        })
    ));
    let event: TestEvent = Event::ApiServerAnnouncement { deploy: 4 };
    assert!(matches!(
        event.dispatch_event(),
        Route::DeployGossiper(DeployGossiperEvent::DeployReceived { deploy: 4 })
    ));
    let event: TestEvent = Event::StorageAnnouncement {
        deploy_hash: 5,
        deploy_header: 6,
    };
    assert!(matches!(
        event.dispatch_event(),
        Route::AddDeploy {
            deploy_hash: 5,
            deploy_header: 6
        }
    ));
    let event: TestEvent = Event::Storage(9);
    assert_eq!(event.to_text("S"), "storage: S");
    assert!(matches!(event.dispatch_event(), Route::Storage(9)));
    let message: Message<TestParts> = Message::Pinger(1);
    assert_eq!(message.to_text("ping"), "Pinger::ping");
}

#[test]
fn requests_become_events() {
    let event: TestEvent = Event::from_api_request(1);
    assert!(matches!(
        event,
        Event::ApiServer(ApiServerEvent::ApiRequest(1))
    ));
    let event: TestEvent = Event::from_contract_runtime_request(2);
    assert!(matches!(
        event,
        Event::ContractRuntime(ContractRuntimeEvent::Request(2))
    ));
    let request = NetworkRequest::Broadcast {
        payload: 3u8,
        responder: 4,
    };
    let event: TestEvent = Event::from_consensus_network_request(request);
    assert!(matches!(
        event.dispatch_event(),
        Route::Network(NetworkEvent::Request(NetworkRequest::Broadcast {
            payload: Message::Consensus(3),
            responder: 4
        }))
    ));
    let request = NetworkRequest::SendMessage {
        dest: 8u32,
        payload: 3u8,
        responder: 4,
    };
    let event: TestEvent = Event::from_pinger_network_request(request);
    assert!(matches!(
        event,
        Event::NetworkRequest(NetworkRequest::SendMessage {
            dest: 8,
            payload: Message::Pinger(3),
            responder: 4
        })
    ));
    let request = NetworkRequest::Gossip {
        payload: 3u8,
        count: 2,
        exclude: vec![1u32],
        responder: 4,
    };
    let event: TestEvent = Event::from_gossiper_network_request(request);
    assert!(matches!(
        event,
        Event::NetworkRequest(NetworkRequest::Gossip {
            payload: Message::DeployGossiper(3),
            count: 2,
            ..
        })
    ));
}

#[test]
fn components_start_in_order() {
    let events: Vec<TestEvent> = init_events(vec![1], vec![2], vec![3, 4]);
    let texts: Vec<String> = events.iter().map(|event| event.to_text("")).collect();
    assert_eq!(
        texts,
        vec!["network: ", "pinger: ", "consensus: ", "consensus: "]
    );
}

#[test]
fn sync_event_texts() {
    let event: SyncEvent<u32> = SyncEvent::Start(Digest([1; 32]));
    assert_eq!(event.to_text("H", ""), "Start syncing from H.");
    let event: SyncEvent<u32> = SyncEvent::GetBlockResult(Digest([1; 32]), None);
    assert_eq!(event.to_text("H", "None"), "Get block result for H: None");
    let event: SyncEvent<u32> = SyncEvent::LinearChainBlocksDownloaded();
    assert_eq!(event.to_text("", ""), "Linear chain blocks downloaded");
    let event: SyncEvent<u32> = SyncEvent::NewPeerConnected(4);
    assert_eq!(event.to_text("4", ""), "A new peer connected: 4");
}
