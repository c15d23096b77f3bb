//! Tests of the linear chain component.

use casper_node::hash::Digest;
use casper_node::keys::{PublicKey, Signature as CryptoSignature};
use casper_node::linear_chain::event::{Effect, Event, LinearChainRequest};
use casper_node::linear_chain::pending_signatures::{
    PendingSignatures, MAX_PENDING_FINALITY_SIGNATURES_PER_VALIDATOR,
};
use casper_node::linear_chain::signature::Signature;
use casper_node::linear_chain::signature_cache::SignatureCache;
use casper_node::linear_chain::LinearChainComponent;
use casper_node::timestamp::Timestamp;
use casper_node::types::{
    Block, BlockHeader, BlockSignatures, EraId, FinalitySignature, ProtocolVersion,
};
use std::collections::BTreeMap;
use std::rc::Rc;

fn digest(n: u64) -> Digest {
    let mut bytes = [0u8; 32];
    bytes[..8].copy_from_slice(&n.to_le_bytes());
    Digest(bytes)
}

fn key(n: u8) -> PublicKey {
    PublicKey::Ed25519([n; 32])
}

fn finality_signature(block_hash: Digest, creator: u8, era: u64) -> FinalitySignature {
    FinalitySignature {
        block_hash,
        era_id: EraId(era),
        signature: CryptoSignature::Ed25519([creator; 64]),
        public_key: key(creator),
    }
}

fn block(hash: Digest, era: u64, height: u64) -> Rc<Block> {
    Rc::new(Block {
        hash,
        header: Rc::new(BlockHeader {
            parent_hash: digest(0),
            state_root_hash: digest(99),
            deploy_hashes: vec![],
            transfer_hashes: vec![],
            timestamp: Timestamp(1_000),
            era_id: EraId(era),
            height,
            switch_block: false,
        }),
    })
}

fn component() -> LinearChainComponent {
    let version = ProtocolVersion {
        major: 1,
        minor: 0,
        patch: 0,
    };
    LinearChainComponent::new(version, 3, 14, EraId(0))
}

#[test]
fn membership_test() {
    let mut pending_sigs = PendingSignatures::new();
    let block_hash = digest(1);
    let block_hash_other = digest(2);
    let sig_a = finality_signature(block_hash, 1, 0);
    let sig_b = finality_signature(block_hash_other, 2, 0);
    let public_key = sig_a.public_key;
    let public_key_other = sig_b.public_key;
    assert!(pending_sigs.add(Signature::External(sig_a)));
    assert!(pending_sigs.has_finality_signature(&public_key, &block_hash));
    assert!(!pending_sigs.has_finality_signature(&public_key_other, &block_hash));
    assert!(!pending_sigs.has_finality_signature(&public_key, &block_hash_other));
}

#[test]
fn collect_pending() {
    let mut pending_sigs = PendingSignatures::new();
    let block_hash = digest(1);
    let block_hash_other = digest(2);
    let sig_a1 = finality_signature(block_hash, 1, 0);
    let sig_a2 = finality_signature(block_hash, 2, 0);
    let sig_b = finality_signature(block_hash_other, 3, 0);
    assert!(pending_sigs.add(Signature::External(sig_a1)));
    assert!(pending_sigs.add(Signature::External(sig_a2)));
    assert!(pending_sigs.add(Signature::External(sig_b)));
    let collected_sigs: BTreeMap<PublicKey, FinalitySignature> = pending_sigs
        .collect_pending(&block_hash)
        .into_iter()
        .map(|sig| (sig.public_key(), sig.take()))
        .collect();
    let expected_sigs: BTreeMap<PublicKey, FinalitySignature> = vec![sig_a1, sig_a2]
        .into_iter()
        .map(|sig| (sig.public_key, sig))
        .collect();
    assert_eq!(collected_sigs, expected_sigs);
    assert!(
        !pending_sigs.has_finality_signature(&sig_a1.public_key, &sig_a1.block_hash),
        "collecting should remove the signature"
    );
    assert!(
        !pending_sigs.has_finality_signature(&sig_a2.public_key, &sig_a2.block_hash),
        "collecting should remove the signature"
    );
}

#[test]
fn remove_signature() {
    let mut pending_sigs = PendingSignatures::new();
    let block_hash = digest(1);
    let sig = finality_signature(block_hash, 1, 0);
    assert!(pending_sigs.add(Signature::External(sig)));
    let removed_sig = pending_sigs.remove(&sig.public_key, &sig.block_hash);
    assert!(removed_sig.is_some());
    assert!(!pending_sigs.has_finality_signature(&sig.public_key, &sig.block_hash));
    assert!(pending_sigs
        .remove(&sig.public_key, &sig.block_hash)
        .is_none());
}

#[test]
fn max_limit_respected() {
    let mut pending_sigs = PendingSignatures::new();
    for n in 0..MAX_PENDING_FINALITY_SIGNATURES_PER_VALIDATOR {
        let sig = finality_signature(digest(n as u64), 1, 0);
        assert!(pending_sigs.add(Signature::External(sig)));
    }
    let sig = finality_signature(digest(1_000_000), 1, 0);
    assert!(!pending_sigs.add(Signature::External(sig)));
    // Others are not affected.
    assert!(pending_sigs.add(Signature::External(finality_signature(digest(5), 2, 0))));
}

#[test]
fn requests_go_to_storage() {
    let mut component = component();
    let effects = component.handle_event(
        Event::Request(LinearChainRequest::BlockRequest(digest(1), 7u32)),
        Timestamp(0),
    );
    assert!(matches!(effects[..], [Effect::GetBlockFromStorage(h, 7)] if h == digest(1)));
    let effects = component.handle_event(
        Event::Request(LinearChainRequest::BlockWithMetadataAtHeight(5, 7u32)),
        Timestamp(0),
    );
    assert!(matches!(
        effects[..],
        [Effect::GetBlockAtHeightWithMetadataFromStorage(5, 7)]
    ));
    let found = block(digest(1), 0, 5);
    let effects =
        component.handle_event(Event::BlockFromStorage(Some(found), 7u32), Timestamp(0));
    assert!(matches!(effects[..], [Effect::SendBlock(7, _)]));
    let effects = component.handle_event(Event::BlockFromStorage(None, 7u32), Timestamp(0));
    assert!(effects.is_empty());
}

#[test]
fn bonded_signature_is_stored_and_remembered() {
    let mut component = component();
    let fs = finality_signature(digest(1), 1, 0);
    let effects = component.handle_event::<u32>(
        Event::FinalitySignatureReceived {
            fs,
            gossiped: true,
            valid: true,
        },
        Timestamp(0),
    );
    assert!(matches!(effects[..], [Effect::GetSignaturesFromStorage(s)] if s == fs));
    let effects = component.handle_event::<u32>(
        Event::GetStoredFinalitySignaturesResult(
            fs,
            Some(BlockSignatures::new(digest(1), EraId(0))),
        ),
        Timestamp(0),
    );
    assert!(matches!(effects[..], [Effect::IsBondedValidator { .. }]));
    let effects = component.handle_event::<u32>(
        Event::IsBonded(
            Some(BlockSignatures::new(digest(1), EraId(0))),
            fs,
            true,
        ),
        Timestamp(0),
    );
    let stored: Vec<bool> = effects
        .iter()
        .map(|effect| match effect {
            Effect::PutSignaturesToStorage(signatures) => signatures.has_proof(&fs.public_key),
            _ => false,
        })
        .collect();
    assert!(stored.contains(&true));
    // The same signature is not handled again.
    let effects = component.handle_event::<u32>(
        Event::FinalitySignatureReceived {
            fs,
            gossiped: true,
            valid: true,
        },
        Timestamp(0),
    );
    assert!(effects.is_empty());
}

#[test]
fn invalid_signature_is_dropped() {
    let mut component = component();
    let effects = component.handle_event::<u32>(
        Event::FinalitySignatureReceived {
            fs: finality_signature(digest(1), 1, 0),
            gossiped: true,
            valid: false,
        },
        Timestamp(0),
    );
    assert!(effects.is_empty());
}

#[test]
fn unbonded_signature_is_forgotten() {
    let mut component = component();
    let fs = finality_signature(digest(1), 1, 0);
    for _ in 0..2 {
        let effects = component.handle_event::<u32>(
            Event::FinalitySignatureReceived {
                fs,
                gossiped: true,
                valid: true,
            },
            Timestamp(0),
        );
        assert_eq!(effects.len(), 1);
        let effects =
            component.handle_event::<u32>(Event::IsBonded(None, fs, false), Timestamp(0));
        assert!(effects.is_empty());
    }
}

#[test]
fn stored_block_is_announced() {
    let mut component = component();
    let new_block = block(digest(1), 0, 0);
    let effects = component.handle_event::<u32>(
        Event::PutBlockResult {
            block: new_block.clone(),
        },
        Timestamp(1_250),
    );
    let mut durations = vec![];
    let mut announced = 0;
    for effect in effects.iter() {
        match effect {
            Effect::SetBlockCompletionDuration(millis) => durations.push(*millis),
            Effect::AnnounceBlockAdded(b) => {
                assert_eq!(b.hash, digest(1));
                announced += 1;
            }
            _ => {}
        }
    }
    assert_eq!(durations, vec![250]);
    assert_eq!(announced, 1);
}

#[test]
fn caching_again_changes_nothing() {
    let mut cache = SignatureCache::new();
    let mut signatures = BlockSignatures::new(digest(1), EraId(2));
    signatures.insert_proof(key(7), CryptoSignature::Ed25519([7; 64]));
    signatures.insert_proof(key(3), CryptoSignature::Ed25519([3; 64]));
    cache.insert(signatures);
    cache.insert(BlockSignatures::new(digest(2), EraId(1)));
    let cached = match cache.get(&digest(1)) {
        Some(cached) => cached,
        None => panic!("the signatures are cached"),
    };
    cache.insert(cached);
    match cache.get(&digest(1)) {
        Some(cached) => {
            assert_eq!(cached.era_id, EraId(2));
            assert_eq!(cached.proofs.len(), 2);
            assert_eq!(cached.proofs.key_at(0), key(3));
            assert_eq!(*cached.proofs.value_at(0), CryptoSignature::Ed25519([3; 64]));
            assert_eq!(cached.proofs.key_at(1), key(7));
            assert_eq!(*cached.proofs.value_at(1), CryptoSignature::Ed25519([7; 64]));
        }
        None => panic!("the signatures are still cached"),
    }
    assert!(cache.get(&digest(2)).is_some());
}
