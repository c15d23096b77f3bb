//! What the linear chain component reacts to and what it wants done.

use crate::hash::{BlockHash, Digest};
use crate::types::{
    Block, BlockSignatures, BlockWithMetadata, ExecutionResults, FinalitySignature, ProtocolVersion,
};
use std::rc::Rc;
use vstd::prelude::*;

verus! {

/// A request to the linear chain component.
pub enum LinearChainRequest<I> {
    /// Request whole block from the linear chain, by hash.
    BlockRequest(BlockHash, I),
    /// Request for a linear chain block at height.
    BlockWithMetadataAtHeight(u64, I),
}

/// An event for the linear chain component.
pub enum Event<I> {
    /// A linear chain request issued by another node in the network.
    Request(LinearChainRequest<I>),
    /// What storage has of a block that the given node asked for.
    BlockFromStorage(Option<Rc<Block>>, I),
    /// What storage has of a block with its signatures that the given node asked for.
    BlockWithMetadataFromStorage(Option<Rc<BlockWithMetadata>>, I),
    /// New linear chain block has been produced.
    NewLinearChainBlock {
        /// The block.
        block: Rc<Block>,
        /// The deploys' execution results.
        execution_results: ExecutionResults,
    },
    /// Block has been stored.
    PutBlockResult {
        /// The block.
        block: Rc<Block>,
    },
    /// Finality signature received.
    FinalitySignatureReceived {
        /// The signature.
        fs: FinalitySignature,
        /// Whether another node sent it; otherwise this node created it.
        gossiped: bool,
        /// Whether the signature is a right one by its creator over block hash and era.
        valid: bool,
    },
    /// Result of looking for the signatures that are stored for the block of a received one.
    GetStoredFinalitySignaturesResult(FinalitySignature, Option<BlockSignatures>),
    /// Result of testing if the creator of the finality signature is a bonded validator.
    IsBonded(Option<BlockSignatures>, FinalitySignature, bool),
}

impl<I> Event<I> {
    /// The signatures that an event carries are well-formed.
    pub open spec fn wf(self) -> bool {
        match self {
            Event::GetStoredFinalitySignaturesResult(_, Some(known)) => known.wf(),
            Event::IsBonded(Some(known), _, _) => known.wf(),
            _ => true,
        }
    }
}

/// Something for the component's surroundings to do.
pub enum Effect<I> {
    /// Get a block from storage and hand it back for the given node.
    GetBlockFromStorage(BlockHash, I),
    /// Get a block with its signatures from storage and hand it back for the given node.
    GetBlockAtHeightWithMetadataFromStorage(u64, I),
    /// Send a block to the given node.
    SendBlock(I, Rc<Block>),
    /// Send a block with its signatures to the given node.
    SendBlockWithMetadata(I, Rc<BlockWithMetadata>),
    /// Store signatures.
    PutSignaturesToStorage(BlockSignatures),
    /// Send a finality signature to all nodes.
    BroadcastFinalitySignature(FinalitySignature),
    /// Tell the other components about a finality signature.
    AnnounceFinalitySignature(FinalitySignature),
    /// Store a block, then its execution results, then report back that the block is stored.
    PutBlockToStorage {
        block: Rc<Block>,
        execution_results: ExecutionResults,
    },
    /// Record how many milliseconds after its proposal a block was stored.
    SetBlockCompletionDuration(u64),
    /// Tell the other components about a block.
    AnnounceBlockAdded(Rc<Block>),
    /// Get the signatures for the block of a received one from storage and hand both back.
    GetSignaturesFromStorage(FinalitySignature),
    /// Hand back the signature together with those already cached for its block.
    Immediately(FinalitySignature, BlockSignatures),
    /// Find out whether the signature's creator is bonded in its era and hand all of it back.
    IsBondedValidator {
        fs: FinalitySignature,
        known_signatures: Option<BlockSignatures>,
        latest_state_root_hash: Option<Digest>,
        protocol_version: ProtocolVersion,
    },
}

/// Something to do, with signatures as their models.
pub ghost enum EffectModel<I> {
    GetBlockFromStorage(BlockHash, I),
    GetBlockAtHeightWithMetadataFromStorage(u64, I),
    SendBlock(I, Rc<Block>),
    SendBlockWithMetadata(I, Rc<BlockWithMetadata>),
    PutSignaturesToStorage(crate::types::SignaturesModel),
    BroadcastFinalitySignature(FinalitySignature),
    AnnounceFinalitySignature(FinalitySignature),
    PutBlockToStorage { block: Rc<Block>, execution_results: ExecutionResults },
    SetBlockCompletionDuration(u64),
    AnnounceBlockAdded(Rc<Block>),
    GetSignaturesFromStorage(FinalitySignature),
    Immediately(FinalitySignature, crate::types::SignaturesModel),
    IsBondedValidator {
        fs: FinalitySignature,
        known_signatures: Option<crate::types::SignaturesModel>,
        latest_state_root_hash: Option<Digest>,
        protocol_version: ProtocolVersion,
    },
}

/// The model of signatures that may be there.
pub open spec fn signatures_view(s: Option<BlockSignatures>) -> Option<crate::types::SignaturesModel> {
    match s {
        Some(s) => Some(s@),
        None => None,
    }
}

impl<I> View for Effect<I> {
    type V = EffectModel<I>;

    open spec fn view(&self) -> EffectModel<I> {
        match *self {
            Effect::GetBlockFromStorage(h, i) => EffectModel::GetBlockFromStorage(h, i),
            Effect::GetBlockAtHeightWithMetadataFromStorage(h, i) => EffectModel::GetBlockAtHeightWithMetadataFromStorage(h, i),
            Effect::SendBlock(i, b) => EffectModel::SendBlock(i, b),
            Effect::SendBlockWithMetadata(i, b) => EffectModel::SendBlockWithMetadata(i, b),
            Effect::PutSignaturesToStorage(s) => EffectModel::PutSignaturesToStorage(s@),
            Effect::BroadcastFinalitySignature(fs) => EffectModel::BroadcastFinalitySignature(fs),
            Effect::AnnounceFinalitySignature(fs) => EffectModel::AnnounceFinalitySignature(fs),
            Effect::PutBlockToStorage { block, execution_results } => EffectModel::PutBlockToStorage {
                block,
                execution_results,
            },
            Effect::SetBlockCompletionDuration(n) => EffectModel::SetBlockCompletionDuration(n),
            Effect::AnnounceBlockAdded(b) => EffectModel::AnnounceBlockAdded(b),
            Effect::GetSignaturesFromStorage(fs) => EffectModel::GetSignaturesFromStorage(fs),
            Effect::Immediately(fs, s) => EffectModel::Immediately(fs, s@),
            Effect::IsBondedValidator { fs, known_signatures, latest_state_root_hash, protocol_version } => EffectModel::IsBondedValidator {
                fs,
                known_signatures: signatures_view(known_signatures),
                latest_state_root_hash,
                protocol_version,
            },
        }
    }
}

/// The models of a list of things to do.
pub open spec fn effects_view<I>(effects: Seq<Effect<I>>) -> Seq<EffectModel<I>> {
    effects.map_values(|e: Effect<I>| e@)
}

/// Adding something to do adds its model.
pub proof fn lemma_effects_view_push<I>(effects: Seq<Effect<I>>, e: Effect<I>)
    ensures
        effects_view(effects.push(e)) == effects_view(effects).push(e@),
{
    assert(effects_view(effects.push(e)) =~= effects_view(effects).push(e@));
}

} // verus!
