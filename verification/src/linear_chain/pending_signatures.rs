//! Finality signatures that wait for their block.

use crate::collections::VecMap;
use crate::hash::BlockHash;
use crate::keys::PublicKey;
use crate::linear_chain::signature::Signature;
use vstd::prelude::*;

verus! {

/// The maximum number of finality signatures from a single validator we keep in memory while
/// waiting for their block.
pub const MAX_PENDING_FINALITY_SIGNATURES_PER_VALIDATOR: usize = 1000;

/// Finality signatures to be inserted in a block once it is available.
/// Keyed by public key of the creator to limit the maximum amount of pending signatures.
pub struct PendingSignatures {
    pending_finality_signatures: VecMap<PublicKey, VecMap<BlockHash, Signature>>,
}

/// The signatures by creator and block.
pub type PendingModel = Map<PublicKey, Map<BlockHash, Signature>>;

/// The signature by `creator` for `block_hash` is pending.
pub open spec fn pending_at(m: PendingModel, creator: PublicKey, block_hash: BlockHash) -> bool {
    m.contains_key(creator) && m[creator].contains_key(block_hash)
}

/// The number of pending signatures by `creator`.
pub open spec fn pending_count(m: PendingModel, creator: PublicKey) -> nat {
    if m.contains_key(creator) {
        m[creator].dom().len()
    } else {
        0
    }
}

/// The signature put in place, under its creator and its block.
pub open spec fn with_signature(m: PendingModel, sig: Signature) -> PendingModel {
    let creator = sig.inner().public_key;
    let others = if m.contains_key(creator) {
        m[creator]
    } else {
        Map::empty()
    };
    m.insert(creator, others.insert(sig.inner().block_hash, sig))
}

/// The signature by `creator` for `block_hash` taken out; a creator without others disappears.
pub open spec fn without_signature(m: PendingModel, creator: PublicKey, block_hash: BlockHash) -> PendingModel {
    if !m.contains_key(creator) {
        m
    } else if m[creator].remove(block_hash).dom().len() == 0 {
        m.remove(creator)
    } else {
        m.insert(creator, m[creator].remove(block_hash))
    }
}

/// All signatures for `block_hash` taken out; creators without others disappear.
pub open spec fn without_block(m: PendingModel, block_hash: BlockHash) -> PendingModel {
    Map::new(
        |c: PublicKey| m.contains_key(c) && m[c].remove(block_hash).dom().len() != 0,
        |c: PublicKey| m[c].remove(block_hash),
    )
}

/// `sigs` holds the signatures for `block_hash`, each creator's once.
pub open spec fn collects(m: PendingModel, block_hash: BlockHash, sigs: Seq<Signature>) -> bool {
    &&& forall|i: int| #![trigger sigs[i]]
        0 <= i < sigs.len() ==> pending_at(m, sigs[i].inner().public_key, block_hash)
            && m[sigs[i].inner().public_key][block_hash] == sigs[i]
    &&& forall|c: PublicKey| #[trigger] pending_at(m, c, block_hash) ==> sigs.contains(m[c][block_hash])
    &&& forall|i: int, j: int| 0 <= i < j < sigs.len() ==> (#[trigger] sigs[i]).inner().public_key != (#[trigger] sigs[j]).inner().public_key
}

impl View for PendingSignatures {
    type V = PendingModel;

    closed spec fn view(&self) -> PendingModel {
        self.pending_finality_signatures@.map_values(|sigs: VecMap<BlockHash, Signature>| sigs@)
    }
}

impl PendingSignatures {
    /// Every signature stands under its creator and its block, no creator has more than the
    /// maximum, and none has no signature at all.
    pub closed spec fn wf(&self) -> bool {
        &&& self.pending_finality_signatures.wf()
        &&& forall|i: int| #![trigger self.pending_finality_signatures.seq()[i]]
            0 <= i < self.pending_finality_signatures.seq().len() ==> {
                let e = self.pending_finality_signatures.seq()[i];
                &&& e.1.wf()
                &&& 0 < e.1.seq().len() <= MAX_PENDING_FINALITY_SIGNATURES_PER_VALIDATOR
                &&& forall|h: BlockHash| #[trigger] e.1@.contains_key(h) ==> e.1@[h].inner().public_key == e.0
                    && e.1@[h].inner().block_hash == h
            }
    }

    /// What holds of every collection of pending signatures: each signature stands under its
    /// creator and its block, and each creator has between one and the maximum number of them.
    pub proof fn lemma_invariant(&self, creator: PublicKey)
        requires
            self.wf(),
            self@.contains_key(creator),
        ensures
            self@[creator].dom().finite(),
            0 < pending_count(self@, creator) <= MAX_PENDING_FINALITY_SIGNATURES_PER_VALIDATOR,
            forall|h: BlockHash| #[trigger] self@[creator].contains_key(h) ==> self@[creator][h].inner().public_key == creator
                && self@[creator][h].inner().block_hash == h,
    {
        let s = self.pending_finality_signatures.seq();
        let i = crate::collections::key_index(s, creator);
        assert(s[i].0 == creator);
        crate::collections::lemma_entry_map_at(s, i);
        crate::collections::lemma_entry_map_len(s[i].1.seq());
    }

    /// Creates an empty collection.
    pub fn new() -> (r: PendingSignatures)
        ensures
            r.wf(),
            r@ == PendingModel::empty(),
    {
        let r = PendingSignatures { pending_finality_signatures: VecMap::new() };
        assert(r@ =~= PendingModel::empty());
        r
    }

    /// Checks if we have already enqueued that finality signature.
    pub fn has_finality_signature(&self, creator: &PublicKey, block_hash: &BlockHash) -> (r: bool)
        requires
            self.wf(),
        ensures
            r == pending_at(self@, *creator, *block_hash),
    {
        match self.pending_finality_signatures.index_of(creator) {
            Some(i) => self.pending_finality_signatures.value_at(i).contains_key(block_hash),
            None => false,
        }
    }

    /// Adds finality signature to the pending collection.
    /// Returns `true` if it was added.
    pub fn add(&mut self, signature: Signature) -> (r: bool)
        requires
            old(self).wf(),
        ensures
            final(self).wf(),
            r == (pending_count(old(self)@, signature.inner().public_key)
                < MAX_PENDING_FINALITY_SIGNATURES_PER_VALIDATOR),
            final(self)@ == if r {
                with_signature(old(self)@, signature)
            } else {
                old(self)@
            },
    {
        let public_key = signature.public_key();
        let block_hash = signature.block_hash();
        let ghost before = self.pending_finality_signatures.seq();
        match self.pending_finality_signatures.index_of(&public_key) {
            Some(i) => {
                proof {
                    self.lemma_invariant(public_key);
                    crate::collections::lemma_entry_map_len(before[i as int].1.seq());
                }
                // Limit the memory we use for storing unknown signatures from each validator.
                if self.pending_finality_signatures.value_at(i).len()
                    >= MAX_PENDING_FINALITY_SIGNATURES_PER_VALIDATOR {
                    return false;
                }
                let _ = self.pending_finality_signatures.value_at_mut(i).insert(block_hash, signature);
                proof {
                    let after = self.pending_finality_signatures.seq();
                    assert(forall|j: int| 0 <= j < after.len() && j != i ==> after[j] == before[j]);
                }
            },
            None => {
                let sigs = VecMap::singleton(block_hash, signature);
                let _ = self.pending_finality_signatures.insert(public_key, sigs);
                proof {
                    let after = self.pending_finality_signatures.seq();
                    assert(forall|j: int| 0 <= j < before.len() ==> after[j] == before[j]);
                    assert(after[before.len() as int] == (public_key, sigs));
                }
            },
        }
        assert(self@ =~= with_signature(old(self)@, signature));
        true
    }

    /// Takes out the signature by the given validator for the given block.
    pub fn remove(&mut self, public_key: &PublicKey, block_hash: &BlockHash) -> (r: Option<Signature>)
        requires
            old(self).wf(),
        ensures
            final(self).wf(),
            final(self)@ == without_signature(old(self)@, *public_key, *block_hash),
            r == if pending_at(old(self)@, *public_key, *block_hash) {
                Some(old(self)@[*public_key][*block_hash])
            } else {
                None
            },
    {
        let ghost before = self.pending_finality_signatures.seq();
        let i = match self.pending_finality_signatures.index_of(public_key) {
            Some(i) => i,
            None => {
                return None;
            },
        };
        let sig = self.pending_finality_signatures.value_at_mut(i).remove(block_hash);
        let ghost middle = self.pending_finality_signatures;
        proof {
            assert(forall|j: int| 0 <= j < before.len() && j != i ==> middle.seq()[j] == before[j]);
            crate::collections::lemma_entry_map_at(before, i as int);
            assert forall|j: int| 0 <= j < middle.seq().len() implies (#[trigger] middle.seq()[j]).1.wf() by {}
        }
        self.remove_empty_entries();
        proof {
            let m = old(self)@;
            let inner = middle.seq()[i as int].1;
            crate::collections::lemma_entry_map_len(inner.seq());
            assert(inner@ == m[*public_key].remove(*block_hash));
            assert forall|c: PublicKey| #[trigger] self@.contains_key(c) == without_signature(m, *public_key, *block_hash).contains_key(c) by {
                if m.contains_key(c) && c != *public_key {
                    old(self).lemma_invariant(c);
                    let j = crate::collections::key_index(before, c);
                    assert(before[j].0 == c);
                    crate::collections::lemma_entry_map_at(before, j);
                }
            }
            assert(self@ =~= without_signature(m, *public_key, *block_hash));
        }
        sig
    }

    /// Returns signatures for `block_hash` that are still pending.
    pub fn collect_pending(&mut self, block_hash: &BlockHash) -> (r: Vec<Signature>)
        requires
            old(self).wf(),
        ensures
            final(self).wf(),
            final(self)@ == without_block(old(self)@, *block_hash),
            collects(old(self)@, *block_hash, r@),
    {
        let ghost before = self.pending_finality_signatures.seq();
        let ghost m = self@;
        let mut pending_sigs: Vec<Signature> = Vec::new();
        let n = self.pending_finality_signatures.len();
        let mut i: usize = 0;
        while i < n
            invariant
                i <= n,
                n == before.len(),
                old(self).wf(),
                m == old(self)@,
                before == old(self).pending_finality_signatures.seq(),
                self.pending_finality_signatures.wf(),
                self.pending_finality_signatures.seq().len() == n,
                forall|j: int| 0 <= j < n ==> (#[trigger] self.pending_finality_signatures.seq()[j]).0 == before[j].0,
                forall|j: int| i <= j < n ==> (#[trigger] self.pending_finality_signatures.seq()[j]).1 == before[j].1,
                forall|j: int| 0 <= j < i ==> (#[trigger] self.pending_finality_signatures.seq()[j]).1.wf()
                    && self.pending_finality_signatures.seq()[j].1@ == before[j].1@.remove(*block_hash)
                    && self.pending_finality_signatures.seq()[j].1.seq().len() <= before[j].1.seq().len(),
                forall|k: int| #![trigger pending_sigs@[k]]
                    0 <= k < pending_sigs@.len() ==> exists|j: int| 0 <= j < i && (#[trigger] before[j]).0 == pending_sigs@[k].inner().public_key
                        && before[j].1@.contains_key(*block_hash) && before[j].1@[*block_hash] == pending_sigs@[k],
                forall|j: int| 0 <= j < i && (#[trigger] before[j]).1@.contains_key(*block_hash) ==> pending_sigs@.contains(before[j].1@[*block_hash]),
                forall|a: int, b: int| 0 <= a < b < pending_sigs@.len() ==> (#[trigger] pending_sigs@[a]).inner().public_key != (#[trigger] pending_sigs@[b]).inner().public_key,
            decreases n - i,
        {
            assert(self.pending_finality_signatures.seq()[i as int].1 == before[i as int].1);
            assert(before[i as int].1.wf());
            let ghost sigs_before = pending_sigs@;
            let taken = self.pending_finality_signatures.value_at_mut(i).remove(block_hash);
            if let Some(sig) = taken {
                pending_sigs.push(sig);
                proof {
                    assert(sig == before[i as int].1@[*block_hash]);
                    assert(sig.inner().public_key == before[i as int].0);
                    assert(pending_sigs@.last() == sig);
                    assert forall|j: int| 0 <= j < i + 1 && (#[trigger] before[j]).1@.contains_key(*block_hash) implies pending_sigs@.contains(before[j].1@[*block_hash]) by {
                        if j < i {
                            let k = sigs_before.index_of(before[j].1@[*block_hash]);
                            assert(pending_sigs@[k] == sigs_before[k]);
                        } else {
                            assert(pending_sigs@[sigs_before.len() as int] == sig);
                        }
                    }
                    assert forall|a: int, b: int| 0 <= a < b < pending_sigs@.len() implies (#[trigger] pending_sigs@[a]).inner().public_key != (#[trigger] pending_sigs@[b]).inner().public_key by {
                        if b == sigs_before.len() {
                            assert(pending_sigs@[a] == sigs_before[a]);
                            let j = choose|j: int| 0 <= j < i && (#[trigger] before[j]).0 == sigs_before[a].inner().public_key
                                && before[j].1@.contains_key(*block_hash) && before[j].1@[*block_hash] == sigs_before[a];
                            assert(before[j].0 != before[i as int].0);
                        } else {
                            assert(pending_sigs@[a] == sigs_before[a]);
                            assert(pending_sigs@[b] == sigs_before[b]);
                        }
                    }
                    assert forall|k: int| #![trigger pending_sigs@[k]] 0 <= k < pending_sigs@.len() implies exists|j: int| 0 <= j < i + 1 && (#[trigger] before[j]).0 == pending_sigs@[k].inner().public_key
                        && before[j].1@.contains_key(*block_hash) && before[j].1@[*block_hash] == pending_sigs@[k] by {
                        if k < sigs_before.len() {
                            assert(pending_sigs@[k] == sigs_before[k]);
                            let j = choose|j: int| 0 <= j < i && (#[trigger] before[j]).0 == sigs_before[k].inner().public_key
                                && before[j].1@.contains_key(*block_hash) && before[j].1@[*block_hash] == sigs_before[k];
                            assert(before[j].0 == pending_sigs@[k].inner().public_key);
                        } else {
                            assert(before[i as int].0 == pending_sigs@[k].inner().public_key);
                        }
                    }
                }
            }
            i += 1;
        }
        let ghost middle = self.pending_finality_signatures;
        self.remove_empty_entries();
        proof {
            assert forall|c: PublicKey| #[trigger] m.contains_key(c) implies middle@.contains_key(c) && middle@[c]@ == m[c].remove(*block_hash)
                && middle@[c].wf() by {
                let j = crate::collections::key_index(before, c);
                assert(before[j].0 == c);
                crate::collections::lemma_entry_map_at(before, j);
                crate::collections::lemma_entry_map_at(middle.seq(), j);
                assert(middle.seq()[j].0 == c);
            }
            assert forall|c: PublicKey| #[trigger] middle@.contains_key(c) implies m.contains_key(c) by {
                let j = crate::collections::key_index(middle.seq(), c);
                assert(middle.seq()[j].0 == c);
                crate::collections::lemma_entry_map_at(before, j);
            }
            assert forall|c: PublicKey| #[trigger] self@.contains_key(c) == without_block(m, *block_hash).contains_key(c) by {
                if m.contains_key(c) {
                    crate::collections::lemma_entry_map_len(middle@[c].seq());
                }
            }
            assert(self@ =~= without_block(m, *block_hash));
            assert forall|k: int| #![trigger pending_sigs@[k]] 0 <= k < pending_sigs@.len() implies pending_at(m, pending_sigs@[k].inner().public_key, *block_hash)
                && m[pending_sigs@[k].inner().public_key][*block_hash] == pending_sigs@[k] by {
                let j = choose|j: int| 0 <= j < n && (#[trigger] before[j]).0 == pending_sigs@[k].inner().public_key
                    && before[j].1@.contains_key(*block_hash) && before[j].1@[*block_hash] == pending_sigs@[k];
                crate::collections::lemma_entry_map_at(before, j);
            }
            assert forall|c: PublicKey| #[trigger] pending_at(m, c, *block_hash) implies pending_sigs@.contains(m[c][*block_hash]) by {
                let j = crate::collections::key_index(before, c);
                assert(before[j].0 == c);
                crate::collections::lemma_entry_map_at(before, j);
            }
        }
        pending_sigs
    }

    /// Removes all entries for which there are no finality signatures.
    fn remove_empty_entries(&mut self)
        requires
            old(self).pending_finality_signatures.wf(),
            forall|i: int| #![trigger old(self).pending_finality_signatures.seq()[i]]
                0 <= i < old(self).pending_finality_signatures.seq().len() ==> {
                    let e = old(self).pending_finality_signatures.seq()[i];
                    &&& e.1.wf()
                    &&& e.1.seq().len() <= MAX_PENDING_FINALITY_SIGNATURES_PER_VALIDATOR
                    &&& forall|h: BlockHash| #[trigger] e.1@.contains_key(h) ==> e.1@[h].inner().public_key == e.0
                        && e.1@[h].inner().block_hash == h
                },
        ensures
            final(self).wf(),
            final(self).pending_finality_signatures@ == crate::collections::select(
                old(self).pending_finality_signatures@,
                |k: PublicKey, v: VecMap<BlockHash, Signature>| v.seq().len() != 0,
            ),
    {
        let ghost p = |k: PublicKey, v: VecMap<BlockHash, Signature>| v.seq().len() != 0;
        let ghost before = self.pending_finality_signatures.seq();
        let keep = |_k: &PublicKey, sigs: &VecMap<BlockHash, Signature>| -> (b: bool)
            ensures
                b == (sigs.seq().len() != 0),
            { !sigs.is_empty() };
        self.pending_finality_signatures.retain(keep, Ghost(p));
        proof {
            let after = self.pending_finality_signatures.seq();
            let q = crate::collections::on_entry(p);
            assert forall|i: int| #![trigger after[i]] 0 <= i < after.len() implies before.contains(after[i]) && after[i].1.seq().len() != 0 by {
                broadcast use vstd::seq_lib::group_filter_ensures;

                before.lemma_filter_contains_rev(q, after[i]);
            }
        }
    }
}

/// A signature that was added is pending until it is removed or its block is collected.
pub proof fn law_added_until_taken(m: PendingModel, sig: Signature)
    ensures
        pending_at(with_signature(m, sig), sig.inner().public_key, sig.inner().block_hash),
        with_signature(m, sig)[sig.inner().public_key][sig.inner().block_hash] == sig,
        !pending_at(
            without_signature(with_signature(m, sig), sig.inner().public_key, sig.inner().block_hash),
            sig.inner().public_key,
            sig.inner().block_hash,
        ),
        !pending_at(
            without_block(with_signature(m, sig), sig.inner().block_hash),
            sig.inner().public_key,
            sig.inner().block_hash,
        ),
{
}

/// Adding or removing one signature, or collecting the signatures for one block, leaves the
/// others pending.
pub proof fn law_others_unaffected(
    m: PendingModel,
    sig: Signature,
    block_hash: BlockHash,
    creator: PublicKey,
    other: BlockHash,
)
    requires
        m.contains_key(creator) ==> m[creator].dom().finite(),
    ensures
        creator != sig.inner().public_key || other != sig.inner().block_hash ==> pending_at(
            with_signature(m, sig),
            creator,
            other,
        ) == pending_at(m, creator, other),
        creator != sig.inner().public_key || other != sig.inner().block_hash ==> pending_at(
            without_signature(m, sig.inner().public_key, sig.inner().block_hash),
            creator,
            other,
        ) == pending_at(m, creator, other),
        other != block_hash ==> pending_at(without_block(m, block_hash), creator, other) == pending_at(m, creator, other),
{
    if pending_at(m, creator, other) {
        if other != sig.inner().block_hash {
            assert(m[creator].remove(sig.inner().block_hash).dom().contains(other));
        }
        if other != block_hash {
            assert(m[creator].remove(block_hash).dom().contains(other));
        }
    }
}

} // verus!
