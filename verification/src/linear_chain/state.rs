//! What a node knows about the tip of the linear chain and the signatures for it.

use crate::hash::BlockHash;
use crate::linear_chain::pending_signatures::PendingSignatures;
use crate::linear_chain::signature::Signature;
use crate::linear_chain::signature_cache::SignatureCache;
use crate::types::{Block, BlockSignatures, EraId, FinalitySignature, ProtocolVersion};
use std::rc::Rc;
use vstd::prelude::*;

verus! {

/// The state of the linear chain.
pub struct LinearChain {
    /// The most recently added block.
    latest_block: Option<Rc<Block>>,
    /// Finality signatures to be inserted in a block once it is available.
    pending_finality_signatures: PendingSignatures,
    signature_cache: SignatureCache,
    activation_era_id: EraId,
    /// Current protocol version of the network.
    protocol_version: ProtocolVersion,
    auction_delay: u64,
    unbonding_delay: u64,
}

/// The state of the linear chain.
#[verifier::ext_equal]
pub ghost struct LinearChainModel {
    pub latest_block: Option<Rc<Block>>,
    pub pending: crate::linear_chain::pending_signatures::PendingModel,
    pub cache: crate::linear_chain::signature_cache::CacheModel,
    pub activation_era_id: EraId,
    pub protocol_version: ProtocolVersion,
    pub auction_delay: u64,
    pub unbonding_delay: u64,
}

/// The sum, or the largest era number if it does not fit.
pub open spec fn saturating(n: int) -> int {
    if n > u64::MAX {
        u64::MAX as int
    } else {
        n
    }
}

impl LinearChainModel {
    /// The era whose validators are the current ones: that of the latest block, or the next one
    /// behind a switch block.
    pub open spec fn current_era(block: Block) -> int {
        saturating(
            block.header.era_id.0 + (if block.header.switch_block {
                1int
            } else {
                0
            }),
        )
    }

    /// Validators of the given era can be told: it is neither forgotten nor too far ahead.
    pub open spec fn acceptable_era(self, era_id: EraId) -> bool {
        match self.latest_block {
            None => true,
            Some(block) => {
                let highest = saturating(LinearChainModel::current_era(*block) + self.auction_delay);
                highest - self.unbonding_delay <= era_id.0 <= highest
            },
        }
    }

    /// The signature is pending or cached.
    pub open spec fn has_signature(self, fs: FinalitySignature) -> bool {
        ||| self.cache.known(fs.block_hash, fs.public_key)
        ||| crate::linear_chain::pending_signatures::pending_at(self.pending, fs.public_key, fs.block_hash)
    }

    /// A received signature becomes pending: its era is acceptable, it is new, it is valid, and
    /// its creator has not too many others.
    pub open spec fn accepts(self, fs: FinalitySignature, valid: bool) -> bool {
        &&& self.acceptable_era(fs.era_id)
        &&& !self.has_signature(fs)
        &&& valid
        &&& crate::linear_chain::pending_signatures::pending_count(self.pending, fs.public_key)
            < crate::linear_chain::pending_signatures::MAX_PENDING_FINALITY_SIGNATURES_PER_VALIDATOR
    }

    /// The state with a pending signature.
    pub open spec fn with_pending(self, sig: Signature) -> LinearChainModel {
        LinearChainModel {
            pending: crate::linear_chain::pending_signatures::with_signature(self.pending, sig),
            ..self
        }
    }

    /// The state without a pending signature.
    pub open spec fn without_pending(self, fs: FinalitySignature) -> LinearChainModel {
        LinearChainModel {
            pending: crate::linear_chain::pending_signatures::without_signature(
                self.pending,
                fs.public_key,
                fs.block_hash,
            ),
            ..self
        }
    }

    /// The state with more cached signatures.
    pub open spec fn with_cached(self, signatures: crate::types::SignaturesModel) -> LinearChainModel {
        LinearChainModel { cache: self.cache.with(signatures), ..self }
    }

    /// `sigs` holds the pending signatures for the block that are not cached yet, each creator's
    /// once.
    pub open spec fn new_signatures(self, block_hash: BlockHash, sigs: Seq<Signature>) -> bool {
        &&& forall|i: int| #![trigger sigs[i]]
            0 <= i < sigs.len() ==> {
                let c = sigs[i].inner().public_key;
                &&& crate::linear_chain::pending_signatures::pending_at(self.pending, c, block_hash)
                &&& self.pending[c][block_hash] == sigs[i]
                &&& !self.cache.known(block_hash, c)
            }
        &&& forall|c: crate::keys::PublicKey| #[trigger] crate::linear_chain::pending_signatures::pending_at(
            self.pending,
            c,
            block_hash,
        ) && !self.cache.known(block_hash, c) ==> sigs.contains(self.pending[c][block_hash])
        &&& forall|i: int, j: int| 0 <= i < j < sigs.len() ==> (#[trigger] sigs[i]).inner().public_key != (#[trigger] sigs[j]).inner().public_key
    }

    /// The state after a new block took up the signatures `sigs`.
    pub open spec fn after_block(self, block: Block, sigs: Seq<Signature>) -> LinearChainModel {
        let collected = LinearChainModel {
            pending: crate::linear_chain::pending_signatures::without_block(self.pending, block.hash),
            ..self
        };
        if sigs.len() == 0 {
            collected
        } else {
            collected.with_cached(signatures_of(block, sigs))
        }
    }
}

/// `sig` is one of `sigs`, and none by its creator is cached for the block.
pub open spec fn among_unknown(
    sigs: Seq<Signature>,
    cache: crate::linear_chain::signature_cache::CacheModel,
    block_hash: BlockHash,
    sig: Signature,
) -> bool {
    sigs.contains(sig) && !cache.known(block_hash, sig.inner().public_key)
}

/// A signature as creator and proof.
pub open spec fn proof_entries(sigs: Seq<Signature>) -> Seq<(crate::keys::PublicKey, crate::keys::Signature)> {
    sigs.map_values(|s: Signature| (s.inner().public_key, s.inner().signature))
}

/// The signatures for a block.
pub open spec fn signatures_of(block: Block, sigs: Seq<Signature>) -> crate::types::SignaturesModel {
    crate::types::SignaturesModel {
        block_hash: block.hash,
        era_id: block.header.era_id,
        proofs: crate::types::with_proofs(Seq::empty(), proof_entries(sigs)),
    }
}

/// Collects the signatures for a block.
pub fn block_signatures(block: &Block, signatures: &Vec<Signature>) -> (r: BlockSignatures)
    ensures
        r.wf(),
        r@ == signatures_of(*block, signatures@),
{
    let mut r = BlockSignatures::new(block.hash, block.header.era_id);
    let ghost entries = proof_entries(signatures@);
    let mut i: usize = 0;
    assert(entries.take(0) =~= Seq::empty());
    while i < signatures.len()
        invariant
            i <= signatures@.len(),
            entries == proof_entries(signatures@),
            r.wf(),
            r@ == (crate::types::SignaturesModel {
                block_hash: block.hash,
                era_id: block.header.era_id,
                proofs: crate::types::with_proofs(Seq::empty(), entries.take(i as int)),
            }),
        decreases signatures@.len() - i,
    {
        proof {
            assert(entries.take(i + 1).drop_last() =~= entries.take(i as int));
            assert(entries.take(i + 1).last() == entries[i as int]);
        }
        let sig = signatures[i];
        let _ = r.insert_proof(sig.public_key(), sig.signature());
        i += 1;
    }
    assert(entries.take(signatures@.len() as int) =~= entries);
    r
}

impl View for LinearChain {
    type V = LinearChainModel;

    closed spec fn view(&self) -> LinearChainModel {
        LinearChainModel {
            latest_block: self.latest_block,
            pending: self.pending_finality_signatures@,
            cache: self.signature_cache@,
            activation_era_id: self.activation_era_id,
            protocol_version: self.protocol_version,
            auction_delay: self.auction_delay,
            unbonding_delay: self.unbonding_delay,
        }
    }
}

impl LinearChain {
    /// The parts are well-formed.
    pub closed spec fn wf(&self) -> bool {
        self.pending_finality_signatures.wf() && self.signature_cache.wf()
    }

    /// Creates the state of a chain without blocks.
    pub fn new(
        protocol_version: ProtocolVersion,
        auction_delay: u64,
        unbonding_delay: u64,
        activation_era_id: EraId,
    ) -> (r: LinearChain)
        ensures
            r.wf(),
            r@ == (LinearChainModel {
                latest_block: None,
                pending: Map::empty(),
                cache: crate::linear_chain::signature_cache::CacheModel {
                    curr_era: EraId(0),
                    signatures: Map::empty(),
                },
                activation_era_id,
                protocol_version,
                auction_delay,
                unbonding_delay,
            }),
    {
        LinearChain {
            latest_block: None,
            pending_finality_signatures: PendingSignatures::new(),
            signature_cache: SignatureCache::new(),
            activation_era_id,
            protocol_version,
            auction_delay,
            unbonding_delay,
        }
    }

    /// Returns whether we have already enqueued or cached that finality signature.
    fn has_finality_signature(&self, fs: &FinalitySignature) -> (r: bool)
        requires
            self.wf(),
        ensures
            r == self@.has_signature(*fs),
    {
        self.signature_cache.known_signature(&fs.block_hash, &fs.public_key)
            || self.pending_finality_signatures.has_finality_signature(&fs.public_key, &fs.block_hash)
    }

    /// Returns whether the validators of the given era can be told.
    fn is_acceptable_era(&self, era_id: EraId) -> (r: bool)
        ensures
            r == self@.acceptable_era(era_id),
    {
        match &self.latest_block {
            None => true,
            Some(block) => {
                // A switch block has already forgotten its own era's validators and determined
                // new ones.
                let step: u64 = if block.header.switch_block {
                    1
                } else {
                    0
                };
                let current_era = block.header.era_id.0.saturating_add(step);
                let highest = current_era.saturating_add(self.auction_delay);
                let lowest = highest.saturating_sub(self.unbonding_delay);
                lowest <= era_id.0 && era_id.0 <= highest
            },
        }
    }

    /// Tries to add the finality signature to the collection of pending finality signatures.
    /// Returns true if added successfully, otherwise false. `valid` tells whether the signature
    /// itself is right.
    pub fn add_pending_finality_signature(&mut self, fs: FinalitySignature, gossiped: bool, valid: bool) -> (r: bool)
        requires
            old(self).wf(),
        ensures
            final(self).wf(),
            r == old(self)@.accepts(fs, valid),
            final(self)@ == if r {
                old(self)@.with_pending(
                    if gossiped {
                        Signature::External(fs)
                    } else {
                        Signature::Local(fs)
                    },
                )
            } else {
                old(self)@
            },
    {
        if !self.is_acceptable_era(fs.era_id) {
            return false;
        }
        if self.has_finality_signature(&fs) {
            return false;
        }
        if !valid {
            return false;
        }
        let signature = if gossiped {
            Signature::External(fs)
        } else {
            Signature::Local(fs)
        };
        self.pending_finality_signatures.add(signature)
    }

    /// Removes a finality signature from the pending collection.
    pub fn remove_from_pending_fs(&mut self, fs: &FinalitySignature) -> (r: Option<Signature>)
        requires
            old(self).wf(),
        ensures
            final(self).wf(),
            final(self)@ == old(self)@.without_pending(*fs),
            r == if crate::linear_chain::pending_signatures::pending_at(
                old(self)@.pending,
                fs.public_key,
                fs.block_hash,
            ) {
                Some(old(self)@.pending[fs.public_key][fs.block_hash])
            } else {
                None
            },
    {
        self.pending_finality_signatures.remove(&fs.public_key, &fs.block_hash)
    }

    /// Caches the signatures.
    pub fn cache_signatures(&mut self, signatures: BlockSignatures)
        requires
            old(self).wf(),
            signatures.wf(),
        ensures
            final(self).wf(),
            final(self)@ == old(self)@.with_cached(signatures@),
    {
        self.signature_cache.insert(signatures);
    }

    /// Returns the cached finality signatures for a block. Caching them again would change nothing.
    pub fn get_signatures(&self, block_hash: &BlockHash) -> (r: Option<BlockSignatures>)
        requires
            self.wf(),
        ensures
            match r {
                Some(s) => s.wf() && self@.cache.signatures.contains_key(*block_hash) && s@
                    == self@.cache.signatures[*block_hash] && self@.with_cached(s@) == self@,
                None => !self@.cache.signatures.contains_key(*block_hash),
            },
    {
        self.signature_cache.get(block_hash)
    }

    /// Returns the current protocol version.
    pub fn current_protocol_version(&self) -> (r: ProtocolVersion)
        ensures
            r == self@.protocol_version,
    {
        self.protocol_version
    }

    /// Sets the most recently added block.
    pub fn set_latest_block(&mut self, block: Rc<Block>)
        requires
            old(self).wf(),
        ensures
            final(self).wf(),
            final(self)@ == (LinearChainModel { latest_block: Some(block), ..old(self)@ }),
    {
        self.latest_block = Some(block);
    }

    /// Returns the most recently added block.
    pub fn latest_block(&self) -> (r: &Option<Rc<Block>>)
        ensures
            *r == self@.latest_block,
    {
        &self.latest_block
    }

    /// New linear chain block received. Collects any pending finality signatures that were waiting
    /// for that block and are not known yet.
    pub fn new_block(&mut self, block: &Block) -> (r: Vec<Signature>)
        requires
            old(self).wf(),
        ensures
            final(self).wf(),
            old(self)@.new_signatures(block.hash, r@),
            final(self)@ == old(self)@.after_block(*block, r@),
    {
        let ghost pre = self@;
        let collected = self.pending_finality_signatures.collect_pending(&block.hash);
        let mut signatures: Vec<Signature> = Vec::new();
        let mut i: usize = 0;
        while i < collected.len()
            invariant
                i <= collected@.len(),
                self.wf(),
                self.signature_cache@ == pre.cache,
                crate::linear_chain::pending_signatures::collects(pre.pending, block.hash, collected@),
                forall|k: int| #![trigger signatures@[k]]
                    0 <= k < signatures@.len() ==> among_unknown(collected@.take(i as int), pre.cache, block.hash, signatures@[k]),
                forall|j: int| 0 <= j < i && !pre.cache.known(block.hash, (#[trigger] collected@[j]).inner().public_key)
                    ==> signatures@.contains(collected@[j]),
                forall|a: int, b: int| 0 <= a < b < signatures@.len() ==> (#[trigger] signatures@[a]).inner().public_key != (#[trigger] signatures@[b]).inner().public_key,
                self.latest_block == old(self).latest_block,
                self.activation_era_id == old(self).activation_era_id,
                self.protocol_version == old(self).protocol_version,
                self.auction_delay == old(self).auction_delay,
                self.unbonding_delay == old(self).unbonding_delay,
                self.pending_finality_signatures@ == crate::linear_chain::pending_signatures::without_block(pre.pending, block.hash),
            decreases collected@.len() - i,
        {
            let sig = collected[i];
            let ghost so_far = signatures@;
            if !self.signature_cache.known_signature(&block.hash, &sig.public_key()) {
                signatures.push(sig);
                proof {
                    assert(signatures@[so_far.len() as int] == collected@[i as int]);
                    assert forall|j: int| 0 <= j < i + 1 && !pre.cache.known(block.hash, (#[trigger] collected@[j]).inner().public_key) implies signatures@.contains(collected@[j]) by {
                        if j < i {
                            let k = so_far.index_of(collected@[j]);
                            assert(signatures@[k] == so_far[k]);
                        }
                    }
                    assert forall|a: int, b: int| 0 <= a < b < signatures@.len() implies (#[trigger] signatures@[a]).inner().public_key != (#[trigger] signatures@[b]).inner().public_key by {
                        assert(signatures@[a] == so_far[a]);
                        if b < so_far.len() {
                            assert(signatures@[b] == so_far[b]);
                        } else {
                            let j = collected@.take(i as int).index_of(so_far[a]);
                            assert(collected@[j] == so_far[a]);
                            assert(collected@[j].inner().public_key != collected@[i as int].inner().public_key);
                        }
                    }
                }
            }
            proof {
                let prefix = collected@.take(i as int);
                let next = collected@.take(i + 1);
                assert(next =~= prefix.push(sig));
                assert forall|k: int| #![trigger signatures@[k]] 0 <= k < signatures@.len() implies among_unknown(next, pre.cache, block.hash, signatures@[k]) by {
                    if k < so_far.len() {
                        let j = prefix.index_of(so_far[k]);
                        assert(next[j] == signatures@[k]);
                    } else {
                        assert(next[i as int] == signatures@[k]);
                    }
                }
            }
            i += 1;
        }
        proof {
            assert forall|k: int| #![trigger signatures@[k]] 0 <= k < signatures@.len() implies {
                let c = signatures@[k].inner().public_key;
                &&& crate::linear_chain::pending_signatures::pending_at(pre.pending, c, block.hash)
                &&& pre.pending[c][block.hash] == signatures@[k]
                &&& !pre.cache.known(block.hash, c)
            } by {
                assert(collected@.take(collected@.len() as int) =~= collected@);
                let j = collected@.index_of(signatures@[k]);
                assert(collected@[j] == signatures@[k]);
            }
            assert forall|c: crate::keys::PublicKey| #[trigger] crate::linear_chain::pending_signatures::pending_at(pre.pending, c, block.hash)
                && !pre.cache.known(block.hash, c) implies signatures@.contains(pre.pending[c][block.hash]) by {
                let j = collected@.index_of(pre.pending[c][block.hash]);
                old(self).pending_finality_signatures.lemma_invariant(c);
                assert(collected@[j].inner().public_key == c);
            }
        }
        if signatures.len() > 0 {
            // Cache the signatures as we expect more finality signatures for the new block to
            // arrive soon.
            self.cache_signatures(block_signatures(block, &signatures));
        }
        signatures
    }
}

} // verus!
