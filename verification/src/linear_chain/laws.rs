//! What the linear chain component does, event by event.

use crate::hash::BlockHash;
use crate::keys::PublicKey;
use crate::linear_chain::event::{Event, LinearChainRequest};
use crate::linear_chain::pending_signatures::MAX_PENDING_FINALITY_SIGNATURES_PER_VALIDATOR;
use crate::linear_chain::signature::Signature;
use crate::timestamp::Timestamp;
use crate::types::{Block, BlockSignatures, BlockWithMetadata, ExecutionResults, FinalitySignature};
use std::rc::Rc;
use vstd::prelude::*;

verus! {

/// A signature of the block by the creator waits for the block.
pub open spec fn waits(m: crate::linear_chain::state::LinearChainModel, creator: PublicKey, block: BlockHash) -> bool {
    m.pending.contains_key(creator) && m.pending[creator].contains_key(block)
}

/// Some proof among them is by the creator.
pub open spec fn signed(proofs: Seq<(PublicKey, crate::keys::Signature)>, creator: PublicKey) -> bool {
    exists|i: int| 0 <= i < proofs.len() && (#[trigger] proofs[i]).0 == creator
}

/// A signature of the block by the creator is cached.
pub open spec fn cached(m: crate::linear_chain::state::LinearChainModel, creator: PublicKey, block: BlockHash) -> bool {
    m.cache.signatures.contains_key(block) && signed(m.cache.signatures[block].proofs, creator)
}

/// In a consistent cache, what is cached is known.
proof fn lemma_cached(m: crate::linear_chain::state::LinearChainModel, creator: PublicKey, block: BlockHash)
    requires
        m.cache.consistent(),
    ensures
        cached(m, creator, block) == m.cache.known(block, creator),
{
    if m.cache.signatures.contains_key(block) {
        lemma_signed(m.cache.signatures[block].proofs, creator);
    }
}

/// Proofs in order are found by their creators.
proof fn lemma_signed(proofs: Seq<(PublicKey, crate::keys::Signature)>, creator: PublicKey)
    requires
        crate::ordered::keys_increase(proofs),
    ensures
        signed(proofs, creator) == (crate::ordered::value_of(proofs, creator) is Some),
{
    crate::ordered::lemma_rank(proofs, creator);
    if signed(proofs, creator) {
        let i = choose|i: int| 0 <= i < proofs.len() && (#[trigger] proofs[i]).0 == creator;
        crate::ordered::lemma_value_at(proofs, i);
    }
    if crate::ordered::value_of(proofs, creator) is Some {
        let i = crate::ordered::rank(proofs, creator);
        crate::ordered::lemma_rank_bounds(proofs, creator);
        assert(proofs[i].0 == creator);
    }
}

/// What is announced of signatures: each of them, and nothing but them; only those of this node are
/// broadcast, and no block is stored on the way.
proof fn lemma_announcements<I>(sigs: Seq<Signature>)
    ensures
        forall|e: crate::linear_chain::event::EffectModel<I>| #[trigger]
            crate::linear_chain::announcements::<I>(sigs).contains(e) ==> {
                ||| e matches crate::linear_chain::event::EffectModel::AnnounceFinalitySignature(fs) && exists|i: int|
                    0 <= i < sigs.len() && (#[trigger] sigs[i]).inner() == fs
                ||| e matches crate::linear_chain::event::EffectModel::BroadcastFinalitySignature(fs) && exists|i: int|
                    0 <= i < sigs.len() && (#[trigger] sigs[i]) == Signature::Local(fs)
            },
        forall|i: int|
            0 <= i < sigs.len() ==> {
                &&& crate::linear_chain::announcements::<I>(sigs).contains(
                    crate::linear_chain::event::EffectModel::AnnounceFinalitySignature((#[trigger] sigs[i]).inner()),
                )
                &&& sigs[i] is Local ==> crate::linear_chain::announcements::<I>(sigs).contains(
                    crate::linear_chain::event::EffectModel::BroadcastFinalitySignature(sigs[i].inner()),
                )
            },
    decreases sigs.len(),
{
    if sigs.len() > 0 {
        let rest = sigs.drop_last();
        let all = crate::linear_chain::announcements::<I>(sigs);
        let before = crate::linear_chain::announcements::<I>(rest);
        lemma_announcements::<I>(rest);
        let last = sigs.len() - 1;
        assert(sigs.last() == sigs[last]);
        assert forall|e: crate::linear_chain::event::EffectModel<I>| #[trigger] all.contains(e) implies {
            ||| e matches crate::linear_chain::event::EffectModel::AnnounceFinalitySignature(fs) && exists|i: int|
                0 <= i < sigs.len() && (#[trigger] sigs[i]).inner() == fs
            ||| e matches crate::linear_chain::event::EffectModel::BroadcastFinalitySignature(fs) && exists|i: int|
                0 <= i < sigs.len() && (#[trigger] sigs[i]) == Signature::Local(fs)
        } by {
            let k = all.index_of(e);
            if k < before.len() {
                assert(before[k] == e);
                assert(before.contains(e));
                match e {
                    crate::linear_chain::event::EffectModel::AnnounceFinalitySignature(fs) => {
                        let i = choose|i: int| 0 <= i < rest.len() && (#[trigger] rest[i]).inner() == fs;
                        assert(sigs[i].inner() == fs);
                    },
                    crate::linear_chain::event::EffectModel::BroadcastFinalitySignature(fs) => {
                        let i = choose|i: int| 0 <= i < rest.len() && (#[trigger] rest[i]) == Signature::Local(fs);
                        assert(sigs[i] == Signature::Local(fs));
                    },
                    _ => {},
                }
            }
        }
        assert forall|i: int| 0 <= i < sigs.len() implies {
            &&& all.contains(crate::linear_chain::event::EffectModel::AnnounceFinalitySignature((#[trigger] sigs[i]).inner()))
            &&& sigs[i] is Local ==> all.contains(
                crate::linear_chain::event::EffectModel::BroadcastFinalitySignature(sigs[i].inner()),
            )
        } by {
            if i < last {
                assert(rest[i] == sigs[i]);
                let a = crate::linear_chain::event::EffectModel::<I>::AnnounceFinalitySignature(sigs[i].inner());
                let b = crate::linear_chain::event::EffectModel::<I>::BroadcastFinalitySignature(sigs[i].inner());
                assert(all[before.index_of(a)] == a);
                if sigs[i] is Local {
                    assert(all[before.index_of(b)] == b);
                }
            } else {
                assert(all.last() == all[all.len() - 1]);
                if sigs[i] is Local {
                    assert(all[before.len() as int] == crate::linear_chain::event::EffectModel::<I>::BroadcastFinalitySignature(
                        sigs[i].inner(),
                    ));
                }
            }
        }
    }
}

/// Collected proofs are those put in, by creators who sign once each.
proof fn lemma_collected(entries: Seq<(PublicKey, crate::keys::Signature)>)
    requires
        forall|i: int, j: int| 0 <= i < j < entries.len() ==> (#[trigger] entries[i]).0 != (#[trigger] entries[j]).0,
    ensures
        crate::ordered::keys_increase(crate::types::with_proofs(Seq::empty(), entries)),
        forall|i: int|
            0 <= i < entries.len() ==> crate::ordered::value_of(
                crate::types::with_proofs(Seq::empty(), entries),
                (#[trigger] entries[i]).0,
            ) == Some(entries[i].1),
        forall|k: PublicKey| #[trigger]
            crate::ordered::value_of(crate::types::with_proofs(Seq::empty(), entries), k) is Some ==> exists|i: int|
                0 <= i < entries.len() && (#[trigger] entries[i]).0 == k,
    decreases entries.len(),
{
    let none = Seq::<(PublicKey, crate::keys::Signature)>::empty();
    if entries.len() > 0 {
        let rest = entries.drop_last();
        let before = crate::types::with_proofs(none, rest);
        let last = entries.len() - 1;
        assert forall|i: int, j: int| 0 <= i < j < rest.len() implies (#[trigger] rest[i]).0 != (#[trigger] rest[j]).0 by {
            assert(rest[i] == entries[i] && rest[j] == entries[j]);
        }
        lemma_collected(rest);
        crate::ordered::lemma_with_entry(before, entries.last().0, entries.last().1);
        let all = crate::types::with_proofs(none, entries);
        assert forall|i: int| 0 <= i < entries.len() implies crate::ordered::value_of(all, (#[trigger] entries[i]).0) == Some(
            entries[i].1,
        ) by {
            if i < last {
                assert(rest[i] == entries[i]);
                assert(entries[i].0 != entries[last].0);
            }
        }
        assert forall|k: PublicKey| #[trigger] crate::ordered::value_of(all, k) is Some implies exists|i: int|
            0 <= i < entries.len() && (#[trigger] entries[i]).0 == k by {
            if k == entries.last().0 {
                assert(entries[last].0 == k);
            } else {
                assert(crate::ordered::value_of(before, k) is Some);
                let i = choose|i: int| 0 <= i < rest.len() && (#[trigger] rest[i]).0 == k;
                assert(entries[i].0 == k);
            }
        }
    }
}

/// A new block is stored with its execution results, once and at the end, whatever signatures waited
/// for it.
pub proof fn law_new_block_is_stored<I>(
    pre: crate::linear_chain::state::LinearChainModel,
    block: Rc<Block>,
    execution_results: ExecutionResults,
    now: Timestamp,
    post: crate::linear_chain::state::LinearChainModel,
    effects: Seq<crate::linear_chain::event::EffectModel<I>>,
)
    requires
        crate::linear_chain::handled(pre, Event::<I>::NewLinearChainBlock { block, execution_results }, now, post, effects),
    ensures
        effects.len() > 0,
        effects.last() == (crate::linear_chain::event::EffectModel::<I>::PutBlockToStorage { block, execution_results }),
        forall|i: int| 0 <= i < effects.len() - 1 ==> !(#[trigger] effects[i] is PutBlockToStorage),
        post.latest_block == pre.latest_block,
{
    let sigs = choose|sigs: Seq<Signature>|
        {
            &&& #[trigger] pre.new_signatures(block.hash, sigs)
            &&& post == pre.after_block(*block, sigs)
            &&& effects == crate::linear_chain::new_block_effects::<I>(block, execution_results, sigs)
        };
    lemma_announcements::<I>(sigs);
    let middle = crate::linear_chain::announcements::<I>(sigs);
    assert forall|i: int| 0 <= i < effects.len() - 1 implies !(#[trigger] effects[i] is PutBlockToStorage) by {
        if i > 0 {
            assert(effects[i] == middle[i - 1]);
            assert(middle.contains(middle[i - 1]));
        }
    }
}

/// A signature that waited for a new block, and of which none by its creator is cached, is announced,
/// and stored with the block's hash and era under its creator; one of this node is broadcast too. What
/// is announced, broadcast and stored is nothing else.
pub proof fn law_waiting_signatures_taken_up<I>(
    pre: crate::linear_chain::state::LinearChainModel,
    block: Rc<Block>,
    execution_results: ExecutionResults,
    now: Timestamp,
    post: crate::linear_chain::state::LinearChainModel,
    effects: Seq<crate::linear_chain::event::EffectModel<I>>,
    creator: PublicKey,
)
    requires
        crate::linear_chain::handled(pre, Event::<I>::NewLinearChainBlock { block, execution_results }, now, post, effects),
        pre.cache.consistent(),
        forall|c: PublicKey| #[trigger] waits(pre, c, block.hash) ==> pre.pending[c][block.hash].inner().public_key == c,
    ensures
        waits(pre, creator, block.hash) && !cached(pre, creator, block.hash) ==> {
            let sig = pre.pending[creator][block.hash];
            &&& effects.contains(crate::linear_chain::event::EffectModel::AnnounceFinalitySignature(sig.inner()))
            &&& sig is Local ==> effects.contains(
                crate::linear_chain::event::EffectModel::BroadcastFinalitySignature(sig.inner()),
            )
            &&& effects[0] matches crate::linear_chain::event::EffectModel::PutSignaturesToStorage(stored)
            &&& stored.block_hash == block.hash
            &&& stored.era_id == block.header.era_id
            &&& stored.proofs.contains((creator, sig.inner().signature))
        },
        forall|e: crate::linear_chain::event::EffectModel<I>| #[trigger]
            effects.contains(e) ==> match e {
                crate::linear_chain::event::EffectModel::AnnounceFinalitySignature(fs) => waits(pre, fs.public_key, block.hash)
                    && pre.pending[fs.public_key][block.hash].inner() == fs && !cached(pre, fs.public_key, block.hash),
                crate::linear_chain::event::EffectModel::BroadcastFinalitySignature(fs) => waits(pre, fs.public_key, block.hash)
                    && pre.pending[fs.public_key][block.hash] == Signature::Local(fs) && !cached(pre, fs.public_key, block.hash),
                crate::linear_chain::event::EffectModel::PutSignaturesToStorage(stored) => signed(stored.proofs, creator)
                    ==> waits(pre, creator, block.hash) && !cached(pre, creator, block.hash),
                crate::linear_chain::event::EffectModel::PutBlockToStorage { .. } => true,
                _ => false,
            },
{
    let sigs = choose|sigs: Seq<Signature>|
        {
            &&& #[trigger] pre.new_signatures(block.hash, sigs)
            &&& post == pre.after_block(*block, sigs)
            &&& effects == crate::linear_chain::new_block_effects::<I>(block, execution_results, sigs)
        };
    let middle = crate::linear_chain::announcements::<I>(sigs);
    let entries = crate::linear_chain::state::proof_entries(sigs);
    lemma_announcements::<I>(sigs);
    lemma_cached(pre, creator, block.hash);
    assert forall|i: int, j: int| 0 <= i < j < entries.len() implies (#[trigger] entries[i]).0 != (#[trigger] entries[j]).0 by {
        assert(sigs[i].inner().public_key != sigs[j].inner().public_key);
    }
    lemma_collected(entries);
    let proofs = crate::types::with_proofs(Seq::empty(), entries);
    if waits(pre, creator, block.hash) && !cached(pre, creator, block.hash) {
        let sig = pre.pending[creator][block.hash];
        assert(crate::linear_chain::pending_signatures::pending_at(pre.pending, creator, block.hash));
        let i = sigs.index_of(sig);
        assert(sigs[i] == sig);
        let a = crate::linear_chain::event::EffectModel::<I>::AnnounceFinalitySignature(sig.inner());
        let b = crate::linear_chain::event::EffectModel::<I>::BroadcastFinalitySignature(sig.inner());
        assert(effects[1 + middle.index_of(a)] == a);
        if sig is Local {
            assert(effects[1 + middle.index_of(b)] == b);
        }
        assert(entries[i] == (creator, sig.inner().signature));
        let k = crate::ordered::rank(proofs, creator);
        crate::ordered::lemma_rank_bounds(proofs, creator);
        assert(proofs[k] == (creator, sig.inner().signature));
    }
    assert forall|e: crate::linear_chain::event::EffectModel<I>| #[trigger] effects.contains(e) implies match e {
        crate::linear_chain::event::EffectModel::AnnounceFinalitySignature(fs) => waits(pre, fs.public_key, block.hash)
            && pre.pending[fs.public_key][block.hash].inner() == fs && !cached(pre, fs.public_key, block.hash),
        crate::linear_chain::event::EffectModel::BroadcastFinalitySignature(fs) => waits(pre, fs.public_key, block.hash)
            && pre.pending[fs.public_key][block.hash] == Signature::Local(fs) && !cached(pre, fs.public_key, block.hash),
        crate::linear_chain::event::EffectModel::PutSignaturesToStorage(stored) => signed(stored.proofs, creator) ==> waits(
            pre,
            creator,
            block.hash,
        ) && !cached(pre, creator, block.hash),
        crate::linear_chain::event::EffectModel::PutBlockToStorage { .. } => true,
        _ => false,
    } by {
        let k = effects.index_of(e);
        if sigs.len() > 0 && 0 < k < effects.len() - 1 {
            assert(middle[k - 1] == e);
            assert(middle.contains(e));
        }
        match e {
            crate::linear_chain::event::EffectModel::AnnounceFinalitySignature(fs) => {
                let i = choose|i: int| 0 <= i < sigs.len() && (#[trigger] sigs[i]).inner() == fs;
                lemma_cached(pre, fs.public_key, block.hash);
                assert(sigs[i].inner() == fs);
            },
            crate::linear_chain::event::EffectModel::BroadcastFinalitySignature(fs) => {
                let i = choose|i: int| 0 <= i < sigs.len() && (#[trigger] sigs[i]) == Signature::Local(fs);
                lemma_cached(pre, fs.public_key, block.hash);
                assert(sigs[i] == Signature::Local(fs));
            },
            crate::linear_chain::event::EffectModel::PutSignaturesToStorage(stored) => {
                if signed(stored.proofs, creator) {
                    lemma_signed(stored.proofs, creator);
                    let i = choose|i: int| 0 <= i < entries.len() && (#[trigger] entries[i]).0 == creator;
                    assert(entries[i].0 == creator);
                    assert(sigs[i].inner().public_key == creator);
                }
            },
            _ => {},
        }
    }
}

/// Once a block is there, no signature of it waits any more, and those of other blocks still do.
pub proof fn law_taken_up_signatures_wait_no_more<I>(
    pre: crate::linear_chain::state::LinearChainModel,
    block: Rc<Block>,
    execution_results: ExecutionResults,
    now: Timestamp,
    post: crate::linear_chain::state::LinearChainModel,
    effects: Seq<crate::linear_chain::event::EffectModel<I>>,
    creator: PublicKey,
    other: BlockHash,
)
    requires
        crate::linear_chain::handled(pre, Event::<I>::NewLinearChainBlock { block, execution_results }, now, post, effects),
        pre.pending.contains_key(creator) ==> pre.pending[creator].dom().finite(),
        other != block.hash,
    ensures
        !waits(post, creator, block.hash),
        waits(post, creator, other) == waits(pre, creator, other),
        waits(pre, creator, other) ==> post.pending[creator][other] == pre.pending[creator][other],
{
    if waits(pre, creator, other) {
        assert(pre.pending[creator].remove(block.hash).dom().contains(other));
    }
}

/// A received signature is passed over if it is not valid, if one of the same block by the same creator
/// waits or is cached already, if its creator has too many waiting, or if its era is after the eras
/// whose validators are known or before those that are remembered. Otherwise it waits from then on, as
/// this node's own exactly if it was not gossiped.
pub proof fn law_received_signature<I>(
    pre: crate::linear_chain::state::LinearChainModel,
    fs: FinalitySignature,
    gossiped: bool,
    valid: bool,
    now: Timestamp,
    post: crate::linear_chain::state::LinearChainModel,
    effects: Seq<crate::linear_chain::event::EffectModel<I>>,
)
    requires
        crate::linear_chain::handled(pre, Event::<I>::FinalitySignatureReceived { fs, gossiped, valid }, now, post, effects),
        pre.cache.consistent(),
    ensures
        ({
            let many = pre.pending.contains_key(fs.public_key) && pre.pending[fs.public_key].dom().len()
                >= MAX_PENDING_FINALITY_SIGNATURES_PER_VALIDATOR;
            let refused = !valid || waits(pre, fs.public_key, fs.block_hash) || cached(pre, fs.public_key, fs.block_hash)
                || many || (pre.latest_block matches Some(block) && {
                let newest = block.header.era_id.0 + (if block.header.switch_block {
                    1int
                } else {
                    0
                }) + pre.auction_delay;
                newest <= u64::MAX && (fs.era_id.0 > newest || fs.era_id.0 + pre.unbonding_delay < newest)
            });
            let taken = valid && !waits(pre, fs.public_key, fs.block_hash) && !cached(pre, fs.public_key, fs.block_hash)
                && !many && (pre.latest_block matches Some(block) ==> {
                let newest = block.header.era_id.0 + (if block.header.switch_block {
                    1int
                } else {
                    0
                }) + pre.auction_delay;
                newest <= u64::MAX && fs.era_id.0 <= newest && newest <= fs.era_id.0 + pre.unbonding_delay
            });
            &&& refused ==> post == pre && effects.len() == 0
            &&& taken ==> {
                &&& waits(post, fs.public_key, fs.block_hash)
                &&& post.pending[fs.public_key][fs.block_hash] == if gossiped {
                    Signature::External(fs)
                } else {
                    Signature::Local(fs)
                }
                &&& post.cache == pre.cache
                &&& post.latest_block == pre.latest_block
                &&& effects.len() == 1
                &&& match effects[0] {
                    crate::linear_chain::event::EffectModel::Immediately(f, known) => f == fs && pre.cache.signatures.contains_key(
                        fs.block_hash,
                    ) && known == pre.cache.signatures[fs.block_hash],
                    crate::linear_chain::event::EffectModel::GetSignaturesFromStorage(f) => f == fs
                        && !pre.cache.signatures.contains_key(fs.block_hash),
                    _ => false,
                }
            }
        }),
{
    lemma_cached(pre, fs.public_key, fs.block_hash);
}

/// A received signature is compared with the stored ones of its block. If they are of another era or
/// hold one by the same creator, it is forgotten. Otherwise it is to be found out whether its creator is
/// bonded, by the state after the latest block, and what is stored is cached.
pub proof fn law_compared_with_stored<I>(
    pre: crate::linear_chain::state::LinearChainModel,
    fs: FinalitySignature,
    stored: Option<BlockSignatures>,
    now: Timestamp,
    post: crate::linear_chain::state::LinearChainModel,
    effects: Seq<crate::linear_chain::event::EffectModel<I>>,
)
    requires
        crate::linear_chain::handled(pre, Event::<I>::GetStoredFinalitySignaturesResult(fs, stored), now, post, effects),
        stored matches Some(known) ==> known.wf(),
    ensures
        ({
            let mismatched = stored matches Some(known) && (known.era_id != fs.era_id || signed(known.proofs@, fs.public_key));
            &&& mismatched ==> effects.len() == 0 && !waits(post, fs.public_key, fs.block_hash) && post.cache == pre.cache
            &&& !mismatched ==> {
                &&& post.pending == pre.pending
                &&& effects.len() == 1
                &&& effects[0] matches crate::linear_chain::event::EffectModel::IsBondedValidator {
                    fs: asked,
                    known_signatures,
                    latest_state_root_hash,
                    protocol_version,
                }
                &&& asked == fs
                &&& known_signatures is Some == stored is Some
                &&& stored matches Some(known) ==> known_signatures->0.proofs == known.proofs@
                &&& protocol_version == pre.protocol_version
                &&& match pre.latest_block {
                    Some(block) => latest_state_root_hash == Some(block.header.state_root_hash),
                    None => latest_state_root_hash is None,
                }
                &&& stored matches Some(known) ==> post.cache.signatures.contains_key(known.block_hash)
            }
        }),
{
    if let Some(known) = stored {
        lemma_signed(known.proofs@, fs.public_key);
    }
}

/// A signature by a bonded validator is announced and stored together with all that are known of its
/// block, and no longer waits; it is broadcast exactly if it waited as one of this node.
pub proof fn law_bonded_signature_stored<I>(
    pre: crate::linear_chain::state::LinearChainModel,
    known: BlockSignatures,
    fs: FinalitySignature,
    now: Timestamp,
    post: crate::linear_chain::state::LinearChainModel,
    effects: Seq<crate::linear_chain::event::EffectModel<I>>,
    other: PublicKey,
)
    requires
        crate::linear_chain::handled(pre, Event::<I>::IsBonded(Some(known), fs, true), now, post, effects),
        known.wf(),
        other != fs.public_key,
    ensures
        effects.contains(crate::linear_chain::event::EffectModel::AnnounceFinalitySignature(fs)),
        effects.contains(crate::linear_chain::event::EffectModel::BroadcastFinalitySignature(fs)) == (waits(
            pre,
            fs.public_key,
            fs.block_hash,
        ) && pre.pending[fs.public_key][fs.block_hash] is Local),
        effects.len() > 0,
        effects.last() matches crate::linear_chain::event::EffectModel::PutSignaturesToStorage(stored) && {
            &&& stored.block_hash == known.block_hash
            &&& stored.era_id == known.era_id
            &&& stored.proofs.contains((fs.public_key, fs.signature))
            &&& signed(stored.proofs, other) == signed(known.proofs@, other)
        },
        !waits(post, fs.public_key, fs.block_hash),
        post.cache.signatures.contains_key(known.block_hash),
{
    let proofs = known.proofs@;
    let after = crate::ordered::with_entry(proofs, fs.public_key, fs.signature);
    crate::ordered::lemma_with_entry(proofs, fs.public_key, fs.signature);
    lemma_signed(proofs, other);
    lemma_signed(after, other);
    crate::ordered::lemma_rank_bounds(after, fs.public_key);
    assert(after[crate::ordered::rank(after, fs.public_key)] == (fs.public_key, fs.signature));
    let a = crate::linear_chain::event::EffectModel::<I>::AnnounceFinalitySignature(fs);
    let b = crate::linear_chain::event::EffectModel::<I>::BroadcastFinalitySignature(fs);
    assert(effects[0] == a);
    if waits(pre, fs.public_key, fs.block_hash) && pre.pending[fs.public_key][fs.block_hash] is Local {
        assert(effects[1] == b);
    } else if effects.contains(b) {
        let k = effects.index_of(b);
        assert(effects[k] == b);
    }
}

/// A signature by someone who is not bonded has no effect and no longer waits; one by a bonded validator
/// for a block that is not known keeps waiting.
pub proof fn law_unbonded_signature_forgotten<I>(
    pre: crate::linear_chain::state::LinearChainModel,
    known: Option<BlockSignatures>,
    fs: FinalitySignature,
    bonded: bool,
    now: Timestamp,
    post: crate::linear_chain::state::LinearChainModel,
    effects: Seq<crate::linear_chain::event::EffectModel<I>>,
)
    requires
        crate::linear_chain::handled(pre, Event::<I>::IsBonded(known, fs, bonded), now, post, effects),
        !bonded || known is None,
    ensures
        effects.len() == 0,
        post.cache == pre.cache,
        bonded ==> post == pre,
        !bonded ==> !waits(post, fs.public_key, fs.block_hash),
{
}

/// A block that was stored is the latest one from then on, and is announced; how long it took is
/// recorded.
pub proof fn law_stored_block_is_announced<I>(
    pre: crate::linear_chain::state::LinearChainModel,
    block: Rc<Block>,
    now: Timestamp,
    post: crate::linear_chain::state::LinearChainModel,
    effects: Seq<crate::linear_chain::event::EffectModel<I>>,
)
    requires
        crate::linear_chain::handled(pre, Event::<I>::PutBlockResult { block }, now, post, effects),
        block.header.timestamp.0 <= now.0,
    ensures
        post.latest_block == Some(block),
        post.pending == pre.pending,
        post.cache == pre.cache,
        effects.len() == 2,
        effects[0] matches crate::linear_chain::event::EffectModel::SetBlockCompletionDuration(d) && block.header.timestamp.0
            + d == now.0,
        effects[1] == crate::linear_chain::event::EffectModel::<I>::AnnounceBlockAdded(block),
{
}

/// A block that a node asked for is sent to it if it is there, and nothing is sent otherwise.
pub proof fn law_requested_block_is_sent<I>(
    pre: crate::linear_chain::state::LinearChainModel,
    block: Option<Rc<Block>>,
    sender: I,
    now: Timestamp,
    post: crate::linear_chain::state::LinearChainModel,
    effects: Seq<crate::linear_chain::event::EffectModel<I>>,
)
    requires
        crate::linear_chain::handled(pre, Event::BlockFromStorage(block, sender), now, post, effects),
    ensures
        post == pre,
        block matches Some(b) ==> effects.len() == 1 && effects[0] == crate::linear_chain::event::EffectModel::SendBlock(sender, b),
        block is None ==> effects.len() == 0,
{
}

/// Caching signatures of a block keeps what is known of it and adds the new ones. Those of other blocks
/// stay, unless the new ones are of a later era than all before.
pub proof fn law_cache_adds_up(
    m: crate::linear_chain::signature_cache::CacheModel,
    added: crate::types::SignaturesModel,
    creator: PublicKey,
    other: BlockHash,
)
    requires
        m.consistent(),
        crate::ordered::keys_increase(added.proofs),
        other != added.block_hash,
    ensures
        m.with(added).signatures.contains_key(added.block_hash),
        signed(m.with(added).signatures[added.block_hash].proofs, creator) == (signed(added.proofs, creator) || (
        added.era_id.0 <= m.curr_era.0 && m.signatures.contains_key(added.block_hash) && signed(
            m.signatures[added.block_hash].proofs,
            creator,
        ))),
        added.era_id.0 <= m.curr_era.0 ==> {
            &&& m.with(added).curr_era == m.curr_era
            &&& m.with(added).signatures.contains_key(other) == m.signatures.contains_key(other)
            &&& m.signatures.contains_key(other) ==> m.with(added).signatures[other] == m.signatures[other]
        },
        added.era_id.0 > m.curr_era.0 ==> m.with(added).curr_era == added.era_id && !m.with(added).signatures.contains_key(other),
{
    if added.era_id.0 <= m.curr_era.0 && m.signatures.contains_key(added.block_hash) {
        lemma_both_signed(m.signatures[added.block_hash].proofs, added.proofs, creator);
    }
}

/// Putting proofs in keeps what was there.
proof fn lemma_both_signed(
    proofs: Seq<(PublicKey, crate::keys::Signature)>,
    more: Seq<(PublicKey, crate::keys::Signature)>,
    creator: PublicKey,
)
    requires
        crate::ordered::keys_increase(proofs),
    ensures
        crate::ordered::keys_increase(crate::types::with_proofs(proofs, more)),
        signed(crate::types::with_proofs(proofs, more), creator) == (signed(proofs, creator) || signed(more, creator)),
    decreases more.len(),
{
    if more.len() > 0 {
        let rest = more.drop_last();
        let before = crate::types::with_proofs(proofs, rest);
        lemma_both_signed(proofs, rest, creator);
        crate::ordered::lemma_with_entry(before, more.last().0, more.last().1);
        lemma_signed(before, creator);
        lemma_signed(crate::types::with_proofs(proofs, more), creator);
        assert(more.last() == more[more.len() - 1]);
        if signed(rest, creator) {
            let i = choose|i: int| 0 <= i < rest.len() && (#[trigger] rest[i]).0 == creator;
            assert(more[i].0 == creator);
        }
        if signed(more, creator) && creator != more.last().0 {
            let i = choose|i: int| 0 <= i < more.len() && (#[trigger] more[i]).0 == creator;
            assert(rest[i].0 == creator);
        }
    }
}

/// A request for a block, by its hash or its height, is passed on to storage with who asked; what storage
/// has is sent to the one who asked, and nothing if it has none. Nothing changes.
pub proof fn law_requests_go_through_storage<I>(
    pre: crate::linear_chain::state::LinearChainModel,
    block_hash: BlockHash,
    height: u64,
    found: Option<Rc<BlockWithMetadata>>,
    sender: I,
    now: Timestamp,
    by_hash: (crate::linear_chain::state::LinearChainModel, Seq<crate::linear_chain::event::EffectModel<I>>),
    by_height: (crate::linear_chain::state::LinearChainModel, Seq<crate::linear_chain::event::EffectModel<I>>),
    answered: (crate::linear_chain::state::LinearChainModel, Seq<crate::linear_chain::event::EffectModel<I>>),
)
    requires
        crate::linear_chain::handled(
            pre,
            Event::Request(LinearChainRequest::BlockRequest(block_hash, sender)),
            now,
            by_hash.0,
            by_hash.1,
        ),
        crate::linear_chain::handled(
            pre,
            Event::Request(LinearChainRequest::BlockWithMetadataAtHeight(height, sender)),
            now,
            by_height.0,
            by_height.1,
        ),
        crate::linear_chain::handled(pre, Event::BlockWithMetadataFromStorage(found, sender), now, answered.0, answered.1),
    ensures
        by_hash.0 == pre && by_height.0 == pre && answered.0 == pre,
        by_hash.1.len() == 1,
        by_hash.1[0] matches crate::linear_chain::event::EffectModel::GetBlockFromStorage(h, i) && h == block_hash && i == sender,
        by_height.1.len() == 1,
        by_height.1[0] matches crate::linear_chain::event::EffectModel::GetBlockAtHeightWithMetadataFromStorage(h, i) && h == height
            && i == sender,
        found is None ==> answered.1.len() == 0,
        found matches Some(block) ==> answered.1.len() == 1 && (
        answered.1[0] matches crate::linear_chain::event::EffectModel::SendBlockWithMetadata(i, b) && i == sender && b == block),
{
}

/// No event changes the settings of the chain, and only a block that was stored becomes the latest.
pub proof fn law_settings_stay<I>(
    pre: crate::linear_chain::state::LinearChainModel,
    event: Event<I>,
    now: Timestamp,
    post: crate::linear_chain::state::LinearChainModel,
    effects: Seq<crate::linear_chain::event::EffectModel<I>>,
)
    requires
        crate::linear_chain::handled(pre, event, now, post, effects),
    ensures
        post.activation_era_id == pre.activation_era_id,
        post.protocol_version == pre.protocol_version,
        post.auction_delay == pre.auction_delay,
        post.unbonding_delay == pre.unbonding_delay,
        post.latest_block == (match event {
            Event::PutBlockResult { block } => Some(block),
            _ => pre.latest_block,
        }),
{
}

/// What is done about one signature leaves all others that wait as they are.
pub proof fn law_other_signatures_wait_on<I>(
    pre: crate::linear_chain::state::LinearChainModel,
    event: Event<I>,
    fs: FinalitySignature,
    now: Timestamp,
    post: crate::linear_chain::state::LinearChainModel,
    effects: Seq<crate::linear_chain::event::EffectModel<I>>,
    creator: PublicKey,
    other: BlockHash,
)
    requires
        crate::linear_chain::handled(pre, event, now, post, effects),
        match event {
            Event::FinalitySignatureReceived { fs: f, .. } => f == fs,
            Event::GetStoredFinalitySignaturesResult(f, _) => f == fs,
            Event::IsBonded(_, f, _) => f == fs,
            _ => false,
        },
        creator != fs.public_key || other != fs.block_hash,
        pre.pending.contains_key(creator) ==> pre.pending[creator].dom().finite(),
    ensures
        waits(post, creator, other) == waits(pre, creator, other),
        waits(pre, creator, other) ==> post.pending[creator][other] == pre.pending[creator][other],
{
    if waits(pre, creator, other) && creator == fs.public_key {
        assert(pre.pending[creator].remove(fs.block_hash).dom().contains(other));
    }
}

} // verus!
