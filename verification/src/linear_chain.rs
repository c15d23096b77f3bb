//! The chain of finalized blocks and the signatures for them.

pub mod event;
pub mod laws;
pub mod pending_signatures;
pub mod signature;
pub mod signature_cache;
pub mod state;

use crate::linear_chain::event::{Effect, Event, LinearChainRequest};
use crate::linear_chain::signature::Signature;
use crate::linear_chain::state::{block_signatures, LinearChain};
use crate::timestamp::Timestamp;
use crate::types::{Block, BlockSignatures, EraId, ExecutionResults, FinalitySignature, ProtocolVersion};
use std::rc::Rc;
use vstd::prelude::*;

verus! {

/// The component that keeps the linear chain.
pub struct LinearChainComponent {
    linear_chain_state: LinearChain,
}

/// What the surroundings are told about newly collected signatures: each is announced, and those
/// of this node are broadcast first.
pub open spec fn announcements<I>(sigs: Seq<Signature>) -> Seq<event::EffectModel<I>>
    decreases sigs.len(),
{
    if sigs.len() == 0 {
        Seq::empty()
    } else {
        let fs = sigs.last().inner();
        let before = announcements::<I>(sigs.drop_last());
        if sigs.last() is Local {
            before.push(event::EffectModel::<I>::BroadcastFinalitySignature(fs)).push(
                event::EffectModel::<I>::AnnounceFinalitySignature(fs),
            )
        } else {
            before.push(event::EffectModel::<I>::AnnounceFinalitySignature(fs))
        }
    }
}

/// What follows a new block that took up the signatures `sigs`.
pub open spec fn new_block_effects<I>(block: Rc<Block>, execution_results: ExecutionResults, sigs: Seq<Signature>) -> Seq<
    event::EffectModel<I>,
> {
    let stored = event::EffectModel::<I>::PutBlockToStorage { block, execution_results };
    if sigs.len() == 0 {
        seq![stored]
    } else {
        (seq![event::EffectModel::<I>::PutSignaturesToStorage(state::signatures_of(*block, sigs))]
            + announcements::<I>(sigs)).push(stored)
    }
}

/// The event `event`, arriving at time `now`, leads from `pre` to `post` and causes `effects`.
pub open spec fn handled<I>(
    pre: state::LinearChainModel,
    event: Event<I>,
    now: Timestamp,
    post: state::LinearChainModel,
    effects: Seq<event::EffectModel<I>>,
) -> bool {
    match event {
        Event::Request(LinearChainRequest::BlockRequest(block_hash, sender)) => {
            &&& post == pre
            &&& effects == seq![event::EffectModel::<I>::GetBlockFromStorage(block_hash, sender)]
        },
        Event::Request(LinearChainRequest::BlockWithMetadataAtHeight(height, sender)) => {
            &&& post == pre
            &&& effects == seq![event::EffectModel::<I>::GetBlockAtHeightWithMetadataFromStorage(height, sender)]
        },
        Event::BlockFromStorage(maybe_block, sender) => {
            &&& post == pre
            &&& effects == match maybe_block {
                Some(block) => seq![event::EffectModel::<I>::SendBlock(sender, block)],
                None => seq![],
            }
        },
        Event::BlockWithMetadataFromStorage(maybe_block, sender) => {
            &&& post == pre
            &&& effects == match maybe_block {
                Some(block) => seq![event::EffectModel::<I>::SendBlockWithMetadata(sender, block)],
                None => seq![],
            }
        },
        Event::NewLinearChainBlock { block, execution_results } => exists|sigs: Seq<Signature>|
            {
                &&& #[trigger] pre.new_signatures(block.hash, sigs)
                &&& post == pre.after_block(*block, sigs)
                &&& effects == new_block_effects::<I>(block, execution_results, sigs)
            },
        Event::PutBlockResult { block } => {
            &&& post == (state::LinearChainModel { latest_block: Some(block), ..pre })
            &&& effects == seq![
                event::EffectModel::<I>::SetBlockCompletionDuration((now.0 - block.header.timestamp.0) as u64),
                event::EffectModel::<I>::AnnounceBlockAdded(block),
            ]
        },
        Event::FinalitySignatureReceived { fs, gossiped, valid } => {
            if !pre.accepts(fs, valid) {
                post == pre && effects == Seq::<event::EffectModel<I>>::empty()
            } else {
                &&& post == pre.with_pending(
                    if gossiped {
                        Signature::External(fs)
                    } else {
                        Signature::Local(fs)
                    },
                )
                &&& effects == if pre.cache.signatures.contains_key(fs.block_hash) {
                    seq![event::EffectModel::<I>::Immediately(fs, pre.cache.signatures[fs.block_hash])]
                } else {
                    seq![event::EffectModel::<I>::GetSignaturesFromStorage(fs)]
                }
            }
        },
        Event::GetStoredFinalitySignaturesResult(fs, maybe_signatures) => {
            if maybe_signatures matches Some(known) && (known@.era_id != fs.era_id || known@.has_proof(fs.public_key)) {
                &&& post == pre.without_pending(fs)
                &&& effects == Seq::<event::EffectModel<I>>::empty()
            } else {
                &&& post == match maybe_signatures {
                    Some(known) => pre.with_cached(known@),
                    None => pre,
                }
                &&& effects == seq![
                    event::EffectModel::<I>::IsBondedValidator {
                        fs,
                        known_signatures: event::signatures_view(maybe_signatures),
                        latest_state_root_hash: match pre.latest_block {
                            Some(block) => Some(block.header.state_root_hash),
                            None => None,
                        },
                        protocol_version: pre.protocol_version,
                    },
                ]
            }
        },
        Event::IsBonded(Some(known_signatures), fs, true) => {
            let all = known_signatures@.with_proof(fs.public_key, fs.signature);
            let ours = pending_signatures::pending_at(pre.pending, fs.public_key, fs.block_hash)
                && pre.pending[fs.public_key][fs.block_hash] is Local;
            &&& post == pre.with_cached(all).without_pending(fs)
            &&& effects == if ours {
                seq![
                    event::EffectModel::<I>::AnnounceFinalitySignature(fs),
                    event::EffectModel::<I>::BroadcastFinalitySignature(fs),
                    event::EffectModel::<I>::PutSignaturesToStorage(all),
                ]
            } else {
                seq![
                    event::EffectModel::<I>::AnnounceFinalitySignature(fs),
                    event::EffectModel::<I>::PutSignaturesToStorage(all),
                ]
            }
        },
        Event::IsBonded(None, _fs, true) => {
            // Unknown block but validator is bonded. We should finalize the same block eventually.
            &&& post == pre
            &&& effects == Seq::<event::EffectModel<I>>::empty()
        },
        Event::IsBonded(_, fs, false) => {
            &&& post == pre.without_pending(fs)
            &&& effects == Seq::<event::EffectModel<I>>::empty()
        },
    }
}

impl LinearChainComponent {
    /// The state of the component.
    pub closed spec fn state(&self) -> state::LinearChainModel {
        self.linear_chain_state@
    }

    /// The state is well-formed.
    pub closed spec fn wf(&self) -> bool {
        self.linear_chain_state.wf()
    }

    /// Creates the component of a chain without blocks.
    pub fn new(
        protocol_version: ProtocolVersion,
        auction_delay: u64,
        unbonding_delay: u64,
        activation_era_id: EraId,
    ) -> (r: LinearChainComponent)
        ensures
            r.wf(),
            r.state() == (state::LinearChainModel {
                latest_block: None,
                pending: Map::empty(),
                cache: signature_cache::CacheModel { curr_era: EraId(0), signatures: Map::empty() },
                activation_era_id,
                protocol_version,
                auction_delay,
                unbonding_delay,
            }),
    {
        LinearChainComponent {
            linear_chain_state: LinearChain::new(
                protocol_version,
                auction_delay,
                unbonding_delay,
                activation_era_id,
            ),
        }
    }

    /// Handles an event that arrives at time `now`; returns what is to be done, in order.
    pub fn handle_event<I>(&mut self, event: Event<I>, now: Timestamp) -> (effects: Vec<Effect<I>>)
        requires
            old(self).wf(),
            event.wf(),
            event matches Event::PutBlockResult { block } ==> block.header.timestamp.0 <= now.0,
        ensures
            final(self).wf(),
            handled(old(self).state(), event, now, final(self).state(), event::effects_view(effects@)),
    {
        let mut effects: Vec<Effect<I>> = Vec::new();
        match event {
            Event::Request(LinearChainRequest::BlockRequest(block_hash, sender)) => {
                effects.push(Effect::GetBlockFromStorage(block_hash, sender));
            },
            Event::Request(LinearChainRequest::BlockWithMetadataAtHeight(height, sender)) => {
                effects.push(Effect::GetBlockAtHeightWithMetadataFromStorage(height, sender));
            },
            Event::BlockFromStorage(maybe_block, sender) => {
                if let Some(block) = maybe_block {
                    effects.push(Effect::SendBlock(sender, block));
                }
            },
            Event::BlockWithMetadataFromStorage(maybe_block, sender) => {
                if let Some(block) = maybe_block {
                    effects.push(Effect::SendBlockWithMetadata(sender, block));
                }
            },
            Event::NewLinearChainBlock { block, execution_results } => {
                return self.handle_new_block(block, execution_results);
            },
            Event::PutBlockResult { block } => {
                let completion_duration = now.millis() - block.header.timestamp.millis();
                self.linear_chain_state.set_latest_block(block.clone());
                effects.push(Effect::SetBlockCompletionDuration(completion_duration));
                effects.push(Effect::AnnounceBlockAdded(block));
            },
            Event::FinalitySignatureReceived { fs, gossiped, valid } => {
                if !self.linear_chain_state.add_pending_finality_signature(fs, gossiped, valid) {
                    // If we did not add the signature it means it's either incorrect or we already
                    // know it.
                } else {
                    match self.linear_chain_state.get_signatures(&fs.block_hash) {
                        // Not found in the cache, look in the storage.
                        None => effects.push(Effect::GetSignaturesFromStorage(fs)),
                        Some(signatures) => effects.push(Effect::Immediately(fs, signatures)),
                    }
                }
            },
            Event::GetStoredFinalitySignaturesResult(fs, maybe_signatures) => {
                return self.handle_stored_signatures(fs, maybe_signatures);
            },
            Event::IsBonded(Some(known_signatures), fs, true) => {
                return self.handle_bonded(known_signatures, fs);
            },
            Event::IsBonded(None, _fs, true) => {
                // Unknown block but validator is bonded.
                // We should finalize the same block eventually. Either in this or in the
                // next era.
            },
            Event::IsBonded(_, fs, false) => {
                // Unknown validator.
                let _ = self.linear_chain_state.remove_from_pending_fs(&fs);
            },
        }
        proof {
            let views = event::effects_view(effects@);
            if effects@.len() == 0 {
                assert(views =~= Seq::empty());
            } else if effects@.len() == 1 {
                assert(views =~= seq![effects@[0]@]);
            } else {
                assert(views =~= seq![effects@[0]@, effects@[1]@]);
            }
        }
        effects
    }

    /// Takes up the signatures that waited for a block and has the block stored.
    fn handle_new_block<I>(&mut self, block: Rc<Block>, execution_results: ExecutionResults) -> (effects: Vec<Effect<I>>)
        requires
            old(self).wf(),
        ensures
            final(self).wf(),
            exists|sigs: Seq<Signature>|
                {
                    &&& #[trigger] old(self).state().new_signatures(block.hash, sigs)
                    &&& final(self).state() == old(self).state().after_block(*block, sigs)
                    &&& event::effects_view(effects@) == new_block_effects::<I>(block, execution_results, sigs)
                },
    {
        let signatures = self.linear_chain_state.new_block(&block);
        let mut effects: Vec<Effect<I>> = Vec::new();
        if signatures.len() > 0 {
            effects.push(Effect::PutSignaturesToStorage(block_signatures(&block, &signatures)));
            let ghost head = event::effects_view(effects@);
            let mut i: usize = 0;
            assert(signatures@.take(0) =~= Seq::empty());
            assert(event::effects_view(effects@) =~= head + announcements::<I>(signatures@.take(0)));
            while i < signatures.len()
                invariant
                    i <= signatures@.len(),
                    event::effects_view(effects@) == head + announcements::<I>(signatures@.take(i as int)),
                decreases signatures@.len() - i,
            {
                let signature = signatures[i];
                let ghost before = effects@;
                if signature.is_local() {
                    effects.push(Effect::BroadcastFinalitySignature(*signature.to_inner()));
                }
                let ghost middle = effects@;
                effects.push(Effect::AnnounceFinalitySignature(signature.take()));
                proof {
                    event::lemma_effects_view_push(before, Effect::BroadcastFinalitySignature(signature.inner()));
                    event::lemma_effects_view_push(middle, Effect::AnnounceFinalitySignature(signature.inner()));
                    let next = signatures@.take(i + 1);
                    assert(next.drop_last() =~= signatures@.take(i as int));
                    assert(next.last() == signature);
                    assert(event::effects_view(effects@) =~= head + announcements::<I>(next));
                }
                i += 1;
            }
            assert(signatures@.take(signatures@.len() as int) =~= signatures@);
            assert(head =~= seq![event::EffectModel::<I>::PutSignaturesToStorage(state::signatures_of(*block, signatures@))]);
        }
        effects.push(Effect::PutBlockToStorage { block, execution_results });
        proof {
            assert(event::effects_view(effects@) =~= new_block_effects::<I>(block, execution_results, signatures@));
        }
        effects
    }

    /// Compares a received signature with those that are stored for its block.
    fn handle_stored_signatures<I>(&mut self, fs: FinalitySignature, maybe_signatures: Option<BlockSignatures>) -> (effects: Vec<Effect<I>>)
        requires
            old(self).wf(),
            maybe_signatures matches Some(known) ==> known.wf(),
        ensures
            final(self).wf(),
            handled(
                old(self).state(),
                Event::<I>::GetStoredFinalitySignaturesResult(fs, maybe_signatures),
                Timestamp(0),
                final(self).state(),
                event::effects_view(effects@),
            ),
    {
        let mut effects: Vec<Effect<I>> = Vec::new();
        if let Some(known_signatures) = &maybe_signatures {
            // If the newly-received finality signature does not match the era of previously
            // validated signatures reject it as they can't both be correct: the block was created
            // in a specific era so the IDs have to match.
            if known_signatures.era_id != fs.era_id {
                let _ = self.linear_chain_state.remove_from_pending_fs(&fs);
                assert(event::effects_view(effects@) =~= Seq::empty());
                return effects;
            }
            if known_signatures.has_proof(&fs.public_key) {
                let _ = self.linear_chain_state.remove_from_pending_fs(&fs);
                assert(event::effects_view(effects@) =~= Seq::empty());
                return effects;
            }
            // Populate cache so that next incoming signatures don't trigger read from the
            // storage. If `known_signatures` are already from cache then this will be a
            // noop.
            self.linear_chain_state.cache_signatures(known_signatures.duplicate());
        }
        // Check if the validator is bonded in the era in which the block was created.
        let protocol_version = self.linear_chain_state.current_protocol_version();
        let latest_state_root_hash = match self.linear_chain_state.latest_block() {
            Some(block) => Some(block.header.state_root_hash),
            None => None,
        };
        effects.push(
            Effect::IsBondedValidator {
                fs,
                known_signatures: maybe_signatures,
                latest_state_root_hash,
                protocol_version,
            },
        );
        proof {
            assert(event::effects_view(effects@) =~= seq![effects@[0]@]);
        }
        effects
    }

    /// Takes up a new finality signature from a bonded validator.
    fn handle_bonded<I>(&mut self, known: BlockSignatures, fs: FinalitySignature) -> (effects: Vec<Effect<I>>)
        requires
            old(self).wf(),
            known.wf(),
        ensures
            final(self).wf(),
            handled(
                old(self).state(),
                Event::<I>::IsBonded(Some(known), fs, true),
                Timestamp(0),
                final(self).state(),
                event::effects_view(effects@),
            ),
    {
        let mut known_signatures = known;
        let mut effects: Vec<Effect<I>> = Vec::new();
        let _ = known_signatures.insert_proof(fs.public_key, fs.signature);
        // Cache the results in case we receive the same finality signature before we
        // manage to store it in the database.
        self.linear_chain_state.cache_signatures(known_signatures.duplicate());
        // Announce new finality signatures for other components to pick up.
        effects.push(Effect::AnnounceFinalitySignature(fs));
        if let Some(signature) = self.linear_chain_state.remove_from_pending_fs(&fs) {
            // This shouldn't return `None` as we added the `fs` to the pending collection
            // when we received it. If it _is_ `None` then a concurrent
            // flow must have already removed it. If it's a signature
            // created by this node, gossip it.
            if signature.is_local() {
                effects.push(Effect::BroadcastFinalitySignature(fs));
            }
        }
        effects.push(Effect::PutSignaturesToStorage(known_signatures));
        proof {
            let views = event::effects_view(effects@);
            if effects@.len() == 3 {
                assert(views =~= seq![effects@[0]@, effects@[1]@, effects@[2]@]);
            } else {
                assert(views =~= seq![effects@[0]@, effects@[1]@]);
            }
        }
        effects
    }
}

/// The cached proofs are in the order of their creators.
pub open spec fn cache_ordered(m: state::LinearChainModel) -> bool {
    forall|h: crate::hash::BlockHash| #[trigger] m.cache.signatures.contains_key(h) ==> crate::ordered::keys_increase(m.cache.signatures[h].proofs)
}

/// Proofs that are put in are there afterwards.
proof fn lemma_with_proofs(
    proofs: Seq<(crate::keys::PublicKey, crate::keys::Signature)>,
    more: Seq<(crate::keys::PublicKey, crate::keys::Signature)>,
    i: int,
)
    requires
        crate::ordered::keys_increase(proofs),
        0 <= i < more.len(),
    ensures
        crate::ordered::keys_increase(crate::types::with_proofs(proofs, more)),
        crate::ordered::value_of(crate::types::with_proofs(proofs, more), more[i].0) is Some,
    decreases more.len(),
{
    let rest = more.drop_last();
    if i < rest.len() {
        lemma_with_proofs(proofs, rest, i);
    } else if rest.len() > 0 {
        lemma_with_proofs(proofs, rest, 0);
    }
    crate::ordered::lemma_with_entry(crate::types::with_proofs(proofs, rest), more.last().0, more.last().1);
}

/// A finality signature that was accepted is not accepted a second time while it is pending.
pub proof fn law_accepted_once(pre: state::LinearChainModel, fs: FinalitySignature, sig: Signature, valid: bool)
    requires
        pre.accepts(fs, true),
        sig.inner() == fs,
    ensures
        !pre.with_pending(sig).accepts(fs, valid),
{
    pending_signatures::law_added_until_taken(pre.pending, sig);
}

/// Once the creator of a finality signature has turned out to be bonded, the signature is cached
/// and no longer pending, and receiving it again has no effect.
pub proof fn law_bonded_signature_remembered<I>(
    pre: state::LinearChainModel,
    known: BlockSignatures,
    fs: FinalitySignature,
    now: Timestamp,
    post: state::LinearChainModel,
    effects: Seq<event::EffectModel<I>>,
    valid: bool,
)
    requires
        handled(pre, Event::<I>::IsBonded(Some(known), fs, true), now, post, effects),
        known.block_hash == fs.block_hash,
        known.wf(),
        cache_ordered(pre),
    ensures
        post.cache.known(fs.block_hash, fs.public_key),
        !pending_signatures::pending_at(post.pending, fs.public_key, fs.block_hash),
        !post.accepts(fs, valid),
{
    let all = known@.with_proof(fs.public_key, fs.signature);
    crate::ordered::lemma_with_entry(known@.proofs, fs.public_key, fs.signature);
    crate::ordered::lemma_rank(all.proofs, fs.public_key);
    let i = crate::ordered::rank(all.proofs, fs.public_key);
    if pre.cache.curr_era.0 >= all.era_id.0 && pre.cache.signatures.contains_key(fs.block_hash) {
        lemma_with_proofs(pre.cache.signatures[fs.block_hash].proofs, all.proofs, i);
    }
}

/// A received signature whose era does not match that of the signatures known for its block, or
/// whose creator is known to have signed already, is dropped without any effect.
pub proof fn law_mismatched_signature_dropped<I>(
    pre: state::LinearChainModel,
    known: BlockSignatures,
    fs: FinalitySignature,
    now: Timestamp,
    post: state::LinearChainModel,
    effects: Seq<event::EffectModel<I>>,
)
    requires
        handled(pre, Event::<I>::GetStoredFinalitySignaturesResult(fs, Some(known)), now, post, effects),
        known.era_id != fs.era_id || known@.has_proof(fs.public_key),
    ensures
        effects.len() == 0,
        !pending_signatures::pending_at(post.pending, fs.public_key, fs.block_hash),
        post.cache == pre.cache,
{
}

} // verus!
