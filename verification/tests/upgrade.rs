//! Tests of protocol upgrades and of the mappings of requests.

use casper_node::collections::VecSet;
use casper_node::hash::Digest;
use casper_node::keys::{Key, URef};
use casper_node::mappings::{
    GenesisMessage, MappingError, ParsingError, RunGenesisRequest, TransformEntry,
};
use casper_node::ordered::OrderedMap;
use casper_node::types::{EraId, ProtocolVersion};
use casper_node::upgrade::{
    BytesreprError, CommitResult, Contract, ContractHash, ContractPackage, ContractVersionKey,
    InMemoryState, ProtocolData, ProtocolUpgradeError, StoredValue, SystemUpgrader, TrackingCopy,
    TypeMismatch, UpgradeConfig, UpgradeResult,
};
use num_rational::Ratio;
use std::rc::Rc;

fn version(major: u32) -> ProtocolVersion {
    ProtocolVersion {
        major,
        minor: 0,
        patch: 0,
    }
}

fn hash(n: u8) -> ContractHash {
    [n; 32]
}

fn contract(package: u8) -> StoredValue {
    StoredValue::Contract(Rc::new(Contract {
        contract_package_hash: hash(package),
        contract_wasm_hash: hash(200),
        named_keys: Rc::new(vec![]),
        entry_points: Rc::new(vec![1, 2, 3]),
        protocol_version: version(1),
    }))
}

fn package(contract: u8) -> StoredValue {
    let mut versions = OrderedMap::new();
    versions.insert(
        ContractVersionKey {
            major: 1,
            version: 1,
        },
        hash(contract),
    );
    StoredValue::ContractPackage(Rc::new(ContractPackage {
        access_key: URef {
            addr: [9; 32],
            access_rights: 7,
        },
        versions,
        disabled_versions: VecSet::new(),
        groups: Rc::new(vec![]),
    }))
}

fn data() -> ProtocolData {
    ProtocolData {
        mint: hash(1),
        auction: hash(2),
        proof_of_stake: hash(3),
        standard_payment: hash(4),
    }
}

/// A state with all system contracts but the given number of the last ones.
fn state(missing: u8) -> InMemoryState {
    let mut state = InMemoryState::new();
    for n in 1..(5 - missing) {
        state = state.with(Key::Hash(hash(n)), contract(n + 10));
        state = state.with(Key::Hash(hash(n + 10)), package(n));
    }
    state
}

fn read_contract(copy: &TrackingCopy<InMemoryState>, n: u8) -> Rc<Contract> {
    match copy.read(&Key::Hash(hash(n))) {
        Ok(Some(StoredValue::Contract(contract))) => contract,
        _ => panic!("the contract is there"),
    }
}

#[test]
fn system_contracts_get_new_versions() {
    let mut upgrader = SystemUpgrader::new(version(2), data(), TrackingCopy::new(state(0)));
    assert!(upgrader.upgrade_system_contracts_major_version().is_ok());
    let copy = upgrader.into_tracking_copy();
    for n in 1..5u8 {
        let contract = read_contract(&copy, n);
        assert_eq!(contract.protocol_version, version(2));
        assert_eq!(*contract.entry_points, vec![1, 2, 3]);
        match copy.read(&Key::Hash(hash(n + 10))) {
            Ok(Some(StoredValue::ContractPackage(package))) => {
                let first = ContractVersionKey {
                    major: 1,
                    version: 1,
                };
                let second = ContractVersionKey {
                    major: 2,
                    version: 1,
                };
                assert_eq!(package.versions.len(), 2);
                assert_eq!(package.versions.get(&second), Some(&hash(n)));
                assert!(package.disabled_versions.contains(&first));
                assert!(!package.disabled_versions.contains(&second));
            }
            _ => panic!("the package is there"),
        }
    }
}

#[test]
fn second_upgrade_to_a_major_version_counts_on() {
    let mut upgrader = SystemUpgrader::new(version(1), data(), TrackingCopy::new(state(0)));
    assert!(upgrader.upgrade_system_contracts_major_version().is_ok());
    let copy = upgrader.into_tracking_copy();
    match copy.read(&Key::Hash(hash(11))) {
        Ok(Some(StoredValue::ContractPackage(package))) => {
            let next = ContractVersionKey {
                major: 1,
                version: 2,
            };
            assert_eq!(package.versions.get(&next), Some(&hash(1)));
        }
        _ => panic!("the package is there"),
    }
}

#[test]
fn missing_contract_is_told() {
    let mut upgrader = SystemUpgrader::new(version(2), data(), TrackingCopy::new(state(1)));
    match upgrader.upgrade_system_contracts_major_version() {
        Err(error) => {
            assert!(matches!(
                error,
                ProtocolUpgradeError::UnableToRetrieveSystemContract(_)
            ));
            assert_eq!(
                error.to_text(),
                "Unable to retrieve system contract: standard payment"
            );
        }
        Ok(()) => panic!("a contract is missing"),
    }
    // Those before it were upgraded.
    let copy = upgrader.into_tracking_copy();
    assert_eq!(read_contract(&copy, 3).protocol_version, version(2));
}

#[test]
fn missing_package_is_told() {
    let state = InMemoryState::new().with(Key::Hash(hash(1)), contract(11));
    let mut upgrader = SystemUpgrader::new(version(2), data(), TrackingCopy::new(state));
    match upgrader.store_contract(hash(1), "mint") {
        Err(error) => assert_eq!(
            error.to_text(),
            "Unable to retrieve system contract package: mint"
        ),
        Ok(()) => panic!("the package is missing"),
    }
}

#[test]
fn contract_has_to_be_in_its_package() {
    let state = InMemoryState::new()
        .with(Key::Hash(hash(1)), contract(11))
        .with(Key::Hash(hash(11)), package(99));
    let mut upgrader = SystemUpgrader::new(version(2), data(), TrackingCopy::new(state));
    match upgrader.store_contract(hash(1), "mint") {
        Err(error) => assert_eq!(
            error.to_text(),
            "Failed to disable previous version of system contract: mint"
        ),
        Ok(()) => panic!("the package does not know the contract"),
    }
    let copy = upgrader.into_tracking_copy();
    assert_eq!(read_contract(&copy, 1).protocol_version, version(1));
    assert_eq!(
        ProtocolUpgradeError::InvalidUpgradeConfig.to_text(),
        "Invalid upgrade config"
    );
}

#[test]
fn config_gives_back_what_it_was_made_of() {
    let rate = Ratio::new(1u64, 3u64);
    let config: UpgradeConfig<u8> = UpgradeConfig::new(
        Digest([1; 32]),
        version(1),
        version(2),
        Some(5),
        Some(6),
        Some(7),
        Some(8),
        Some(EraId(9)),
        Some(rate),
        Some(EraId(10)),
        Some(11),
    );
    assert_eq!(config.pre_state_hash(), Digest([1; 32]));
    assert_eq!(config.current_protocol_version(), version(1));
    assert_eq!(config.new_protocol_version(), version(2));
    assert_eq!(config.wasm_config(), Some(&5));
    assert_eq!(config.activation_point(), Some(6));
    assert_eq!(config.new_validator_slots(), Some(7));
    assert_eq!(config.new_auction_delay(), Some(8));
    assert_eq!(config.new_locked_funds_period(), Some(EraId(9)));
    assert_eq!(config.new_round_seigniorage_rate(), Some(rate));
    assert_eq!(config.new_unbonding_delay(), Some(EraId(10)));
    assert_eq!(config.new_wasmless_transfer_cost(), Some(11));
}

#[test]
fn commit_results_become_upgrade_results() {
    let result = |commit: CommitResult| UpgradeResult::from_commit_result(commit, "effect");
    assert_eq!(
        result(CommitResult::RootNotFound).to_text(""),
        "Root not found"
    );
    assert!(matches!(
        result(CommitResult::KeyNotFound(Key::Hash([1; 32]))),
        UpgradeResult::KeyNotFound(Key::Hash(_))
    ));
    let mismatch = TypeMismatch {
        expected: "a".to_string(),
        found: "b".to_string(),
    };
    assert_eq!(
        result(CommitResult::TypeMismatch(mismatch)).to_text("T"),
        "Type mismatch: T"
    );
    assert!(matches!(
        result(CommitResult::Serialization(BytesreprError::Formatting)),
        UpgradeResult::Serialization(BytesreprError::Formatting)
    ));
    match result(CommitResult::Success {
        state_root: Digest([2; 32]),
    }) {
        UpgradeResult::Success {
            post_state_hash,
            effect,
        } => {
            assert_eq!(post_state_hash, Digest([2; 32]));
            assert_eq!(effect, "effect");
        }
        _ => panic!("the commit succeeded"),
    }
}

#[test]
fn round_trip() {
    let request = RunGenesisRequest {
        genesis_config_hash: Digest([7; 32]),
        protocol_version: version(3),
        ee_config: "config",
    };
    let message = GenesisMessage::from_request(request);
    assert_eq!(message.genesis_config_hash, vec![7u8; 32]);
    let message = GenesisMessage {
        genesis_config_hash: message.genesis_config_hash,
        protocol_version: message.protocol_version,
        ee_config: Ok(message.ee_config),
    };
    match message.try_into_request() {
        Ok(back) => {
            assert_eq!(back.genesis_config_hash, Digest([7; 32]));
            assert_eq!(back.protocol_version, version(3));
            assert_eq!(back.ee_config, "config");
        }
        Err(_) => panic!("the message is right"),
    }
}

#[test]
fn transform_round_trip() {
    let entry = TransformEntry::from_parts((Key::Hash([1; 32]), 17u64));
    let entry = TransformEntry {
        key: entry.key.map(Ok),
        transform: entry.transform.map(Ok),
    };
    match entry.try_into_parts() {
        Ok(parts) => assert_eq!(parts, (Key::Hash([1; 32]), 17u64)),
        Err(_) => panic!("the message is right"),
    }
}

#[test]
fn bad_messages_are_refused() {
    let message: GenesisMessage<Result<u8, MappingError>> = GenesisMessage {
        genesis_config_hash: vec![7u8; 31],
        protocol_version: version(3),
        ee_config: Ok(1),
    };
    assert!(matches!(
        message.try_into_request(),
        Err(MappingError::TryFromSlice)
    ));
    let message: GenesisMessage<Result<u8, MappingError>> = GenesisMessage {
        genesis_config_hash: vec![7u8; 32],
        protocol_version: version(3),
        ee_config: Err(MappingError::Parsing(ParsingError("bad".to_string()))),
    };
    assert!(matches!(
        message.try_into_request(),
        Err(MappingError::Parsing(_))
    ));
    let text = |key: Option<Result<u8, ParsingError>>, transform: Option<Result<u8, ParsingError>>| {
        match (TransformEntry { key, transform }).try_into_parts() {
            Ok(_) => panic!("the message is bad"),
            Err(ParsingError(text)) => text,
        }
    };
    assert_eq!(text(None, None), "Protobuf TransformEntry missing Key field");
    assert_eq!(
        text(Some(Ok(1)), None),
        "Protobuf TransformEntry missing Transform field"
    );
    assert_eq!(text(Some(Err(ParsingError("k".to_string()))), None), "k");
    assert_eq!(
        text(Some(Ok(1)), Some(Err(ParsingError("t".to_string())))),
        "t"
    );
}
