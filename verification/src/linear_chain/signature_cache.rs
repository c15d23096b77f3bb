//! Signatures of recent blocks, kept at hand.

use crate::collections::VecMap;
use crate::hash::BlockHash;
use crate::keys::PublicKey;
use crate::types::{BlockSignatures, EraId};
use vstd::prelude::*;

verus! {

/// Cache of the signatures for the blocks of the most recent era, so that finality signatures
/// that arrive close together do not each cause a read from storage.
pub struct SignatureCache {
    curr_era: EraId,
    signatures: VecMap<BlockHash, BlockSignatures>,
}

/// The era and the signatures by block.
#[verifier::ext_equal]
pub ghost struct CacheModel {
    pub curr_era: EraId,
    pub signatures: Map<BlockHash, crate::types::SignaturesModel>,
}

impl CacheModel {
    /// There is a cached signature by `key` for the block.
    pub open spec fn known(self, block_hash: BlockHash, key: PublicKey) -> bool {
        self.signatures.contains_key(block_hash) && self.signatures[block_hash].has_proof(key)
    }

    /// The cache after `added` was put in. A later era drops what belongs to earlier ones; the
    /// proofs of a block that is there already are added to.
    pub open spec fn with(self, added: crate::types::SignaturesModel) -> CacheModel {
        let kept = if self.curr_era.0 < added.era_id.0 {
            Map::empty()
        } else {
            self.signatures
        };
        let merged = if kept.contains_key(added.block_hash) {
            (crate::types::SignaturesModel {
                proofs: crate::types::with_proofs(kept[added.block_hash].proofs, added.proofs),
                ..kept[added.block_hash]
            })
        } else {
            added
        };
        CacheModel {
            curr_era: if self.curr_era.0 < added.era_id.0 {
                added.era_id
            } else {
                self.curr_era
            },
            signatures: kept.insert(added.block_hash, merged),
        }
    }

    /// The signatures stand under their blocks, are not of an era after the most recent one, and are in
    /// the order of their creators.
    pub open spec fn consistent(self) -> bool {
        forall|h: BlockHash| #[trigger]
            self.signatures.contains_key(h) ==> {
                &&& self.signatures[h].block_hash == h
                &&& self.signatures[h].era_id.0 <= self.curr_era.0
                &&& crate::ordered::keys_increase(self.signatures[h].proofs)
            }
    }
}

/// Putting in the first `n` of the proofs that are there changes nothing.
proof fn lemma_same_proofs(proofs: Seq<(PublicKey, crate::keys::Signature)>, n: int)
    requires
        crate::ordered::keys_increase(proofs),
        0 <= n <= proofs.len(),
    ensures
        crate::types::with_proofs(proofs, proofs.take(n)) == proofs,
    decreases n,
{
    if n > 0 {
        let more = proofs.take(n);
        assert(more.drop_last() =~= proofs.take(n - 1));
        assert(more.last() == proofs[n - 1]);
        lemma_same_proofs(proofs, n - 1);
        crate::ordered::lemma_value_at(proofs, n - 1);
        crate::ordered::lemma_same_entry(proofs, proofs[n - 1].0, proofs[n - 1].1);
    }
}

/// Caching signatures that came from the cache changes nothing.
pub proof fn law_caching_again_changes_nothing(m: CacheModel, block_hash: BlockHash)
    requires
        m.consistent(),
        m.signatures.contains_key(block_hash),
    ensures
        m.with(m.signatures[block_hash]) == m,
{
    let s = m.signatures[block_hash];
    lemma_same_proofs(s.proofs, s.proofs.len() as int);
    assert(s.proofs.take(s.proofs.len() as int) =~= s.proofs);
    assert(m.with(s) =~= m);
}

impl View for SignatureCache {
    type V = CacheModel;

    closed spec fn view(&self) -> CacheModel {
        CacheModel {
            curr_era: self.curr_era,
            signatures: self.signatures@.map_values(|s: BlockSignatures| s@),
        }
    }
}

impl SignatureCache {
    /// Every collection of signatures is well-formed and in its place.
    pub closed spec fn wf(&self) -> bool {
        &&& self.signatures.wf()
        &&& forall|h: BlockHash| #[trigger] self.signatures@.contains_key(h) ==> self.signatures@[h].wf()
        &&& self@.consistent()
    }

    /// What holds of every cache.
    pub proof fn lemma_consistent(&self)
        requires
            self.wf(),
        ensures
            self@.consistent(),
    {
    }

    /// Creates an empty cache.
    pub fn new() -> (r: SignatureCache)
        ensures
            r.wf(),
            r@ == (CacheModel { curr_era: EraId(0), signatures: Map::empty() }),
    {
        let r = SignatureCache { curr_era: EraId(0), signatures: VecMap::new() };
        assert(r@ =~= (CacheModel { curr_era: EraId(0), signatures: Map::empty() }));
        r
    }

    /// Returns a copy of the signatures for a block. Caching it again would change nothing.
    pub fn get(&self, hash: &BlockHash) -> (r: Option<BlockSignatures>)
        requires
            self.wf(),
        ensures
            match r {
                Some(s) => s.wf() && self@.signatures.contains_key(*hash) && s@ == self@.signatures[*hash] && self@.with(s@)
                    == self@,
                None => !self@.signatures.contains_key(*hash),
            },
    {
        proof {
            if self@.signatures.contains_key(*hash) {
                law_caching_again_changes_nothing(self@, *hash);
            }
        }
        match self.signatures.get(hash) {
            Some(s) => Some(s.duplicate()),
            None => None,
        }
    }

    /// Returns whether the finality signature is already cached.
    pub fn known_signature(&self, block_hash: &BlockHash, public_key: &PublicKey) -> (r: bool)
        requires
            self.wf(),
        ensures
            r == self@.known(*block_hash, *public_key),
    {
        match self.signatures.get(block_hash) {
            Some(s) => s.has_proof(public_key),
            None => false,
        }
    }

    /// Adds signatures to the cache.
    pub fn insert(&mut self, block_signatures: BlockSignatures)
        requires
            old(self).wf(),
            block_signatures.wf(),
        ensures
            final(self).wf(),
            final(self)@ == old(self)@.with(block_signatures@),
    {
        // Most of the signatures that arrive in close temporal proximity refer to the same era.
        if self.curr_era.0 < block_signatures.era_id.0 {
            self.signatures = VecMap::new();
            self.curr_era = block_signatures.era_id;
        }
        let ghost kept = self.signatures@;
        let hash = block_signatures.block_hash;
        if self.signatures.contains_key(&hash) {
            if let Some(known) = self.signatures.get_mut(&hash) {
                known.extend(&block_signatures);
            }
        } else {
            let _ = self.signatures.insert(hash, block_signatures);
        }
        assert(self@ =~= old(self)@.with(block_signatures@));
    }
}

} // verus!
