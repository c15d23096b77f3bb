//! The storage component: blocks, deploys with the results of their execution, and chainspecs.

pub mod laws;

use crate::block_proposer::{BlockProposerState, DeployCollection};
use crate::chainspec::Chainspec;
use crate::collections::{MapKey, VecMap};
use crate::deploy::{Deploy, DeployHeader};
use crate::hash::{BlockHash, DeployHash};
use crate::keys::Signature;
use crate::timestamp::Timestamp;
use crate::types::{Block, BlockHeader, ExecutionResult};
use crate::version::{Version, VersionMap};
use std::rc::Rc;
use vstd::prelude::*;

verus! {

/// Something of which there can be more than one handle.
pub trait Shared: Sized {
    /// Returns another handle.
    fn share(&self) -> (r: Self)
        ensures
            r == *self,
    ;
}

impl<T> Shared for Rc<T> {
    fn share(&self) -> (r: Rc<T>) {
        self.clone()
    }
}

/// Anything that can be held within the storage component.
pub trait ValueT: Sized {

}

impl<T> ValueT for T {

}

/// Trait defining the API for a value able to be held within the storage component.
pub trait Value: ValueT {
    type Id: MapKey;

    /// A relatively small portion of the value, representing header info or metadata.
    type Header: Shared;

    /// The identifier.
    spec fn spec_id(&self) -> Self::Id;

    /// The header.
    spec fn spec_header(&self) -> Self::Header;

    /// Returns the identifier.
    fn id(&self) -> (r: &Self::Id)
        ensures
            *r == self.spec_id(),
    ;

    /// Returns the header.
    fn header(&self) -> (r: &Self::Header)
        ensures
            *r == self.spec_header(),
    ;

    /// Takes the header out.
    fn take_header(self) -> (r: Self::Header)
        ensures
            r == self.spec_header(),
    ;
}

/// A value that knows the height of a block.
pub trait WithBlockHeight: Value {
    /// The height.
    spec fn spec_height(&self) -> u64;

    /// Returns the height.
    fn height(&self) -> (r: u64)
        ensures
            r == self.spec_height(),
    ;
}

impl Value for Block {
    type Id = BlockHash;

    type Header = Rc<BlockHeader>;

    open spec fn spec_id(&self) -> BlockHash {
        self.hash
    }

    open spec fn spec_header(&self) -> Rc<BlockHeader> {
        self.header
    }

    fn id(&self) -> (r: &BlockHash) {
        &self.hash
    }

    fn header(&self) -> (r: &Rc<BlockHeader>) {
        &self.header
    }

    fn take_header(self) -> (r: Rc<BlockHeader>) {
        self.header
    }
}

impl WithBlockHeight for Block {
    open spec fn spec_height(&self) -> u64 {
        self.header.height
    }

    fn height(&self) -> (r: u64) {
        self.header.height
    }
}

impl Value for Deploy {
    type Id = DeployHash;

    type Header = Rc<DeployHeader>;

    open spec fn spec_id(&self) -> DeployHash {
        self.hash
    }

    open spec fn spec_header(&self) -> Rc<DeployHeader> {
        self.header
    }

    fn id(&self) -> (r: &DeployHash) {
        &self.hash
    }

    fn header(&self) -> (r: &Rc<DeployHeader>) {
        &self.header
    }

    fn take_header(self) -> (r: Rc<DeployHeader>) {
        self.header
    }
}

/// Metadata associated with a block.
#[derive(Debug)]
pub struct BlockMetadata {
    /// The finalization signatures of a block.
    pub proofs: Vec<Signature>,
}

impl Default for BlockMetadata {
    fn default() -> (r: BlockMetadata)
        ensures
            r.proofs@ == Seq::<Signature>::empty(),
    {
        BlockMetadata { proofs: Vec::new() }
    }
}

/// Metadata associated with a deploy.
pub struct DeployMetadata<B: Value> {
    /// The block hashes of blocks containing the related deploy, along with the results of
    /// executing the related deploy.
    pub execution_results: VecMap<B::Id, Rc<ExecutionResult>>,
}

impl<B: Value> DeployMetadata<B> {
    /// Nothing occurs twice.
    pub open spec fn wf(&self) -> bool {
        self.execution_results.wf()
    }

    /// Creates metadata with one result.
    pub fn new(block_hash: B::Id, execution_result: Rc<ExecutionResult>) -> (r: DeployMetadata<B>)
        ensures
            r.wf(),
            r.execution_results@ == Map::<B::Id, Rc<ExecutionResult>>::empty().insert(block_hash, execution_result),
    {
        DeployMetadata { execution_results: VecMap::singleton(block_hash, execution_result) }
    }

    /// Creates metadata without results.
    pub fn none() -> (r: DeployMetadata<B>)
        ensures
            r.wf(),
            r.execution_results@ == Map::<B::Id, Rc<ExecutionResult>>::empty(),
    {
        DeployMetadata { execution_results: VecMap::new() }
    }

    /// Returns a copy.
    pub fn duplicate(&self) -> (r: DeployMetadata<B>)
        requires
            self.wf(),
        ensures
            r.wf(),
            r.execution_results.seq() == self.execution_results.seq(),
    {
        let ghost all = self.execution_results.seq();
        let mut execution_results: VecMap<B::Id, Rc<ExecutionResult>> = VecMap::new();
        let mut i: usize = 0;
        assert(all.take(0) =~= Seq::empty());
        while i < self.execution_results.len()
            invariant
                i <= all.len(),
                all == self.execution_results.seq(),
                self.wf(),
                execution_results.wf(),
                execution_results.seq() == all.take(i as int),
            decreases all.len() - i,
        {
            let key = self.execution_results.key_at(i);
            let value = self.execution_results.value_at(i).clone();
            proof {
                if execution_results@.contains_key(key) {
                    let j = crate::collections::key_index(all.take(i as int), key);
                    assert(all.take(i as int)[j].0 == all[i as int].0);
                    assert(all[j].0 == all[i as int].0);
                }
            }
            let _ = execution_results.insert(key, value);
            assert(execution_results.seq() =~= all.take(i + 1));
            i += 1;
        }
        assert(all.take(all.len() as int) =~= all);
        DeployMetadata { execution_results }
    }
}

impl<B: Value> Default for DeployMetadata<B> {
    fn default() -> (r: DeployMetadata<B>)
        ensures
            r.wf(),
            r.execution_results@ == Map::<B::Id, Rc<ExecutionResult>>::empty(),
    {
        DeployMetadata::none()
    }
}

/// What is held in storage.
#[verifier::ext_equal]
pub ghost struct StorageModel<B: Value, D: Value> {
    /// The blocks by their hashes.
    pub blocks: Map<B::Id, Rc<B>>,
    /// The hashes of blocks by their heights.
    pub heights: Map<u64, B::Id>,
    /// The deploys by their hashes.
    pub deploys: Map<D::Id, Rc<D>>,
    /// The results of executing deploys, by the blocks in which they were executed.
    pub results: Map<D::Id, Map<B::Id, Rc<ExecutionResult>>>,
    /// The chainspecs by their versions.
    pub chainspecs: Map<crate::version::VersionModel, Rc<Chainspec>>,
}

impl<B: Value + WithBlockHeight, D: Value> StorageModel<B, D> {
    /// Nothing is stored.
    pub open spec fn empty() -> StorageModel<B, D> {
        StorageModel {
            blocks: Map::empty(),
            heights: Map::empty(),
            deploys: Map::empty(),
            results: Map::empty(),
            chainspecs: Map::empty(),
        }
    }

    /// Values are stored under their identifiers, and the blocks that heights refer to are there.
    pub open spec fn consistent(self) -> bool {
        &&& forall|id: B::Id| #[trigger] self.blocks.contains_key(id) ==> self.blocks[id].spec_id() == id
        &&& forall|id: D::Id| #[trigger] self.deploys.contains_key(id) ==> self.deploys[id].spec_id() == id
        &&& forall|h: u64| #[trigger]
            self.heights.contains_key(h) ==> self.blocks.contains_key(self.heights[h])
    }

    /// The block with the given hash.
    pub open spec fn block(self, id: B::Id) -> Option<Rc<B>> {
        if self.blocks.contains_key(id) {
            Some(self.blocks[id])
        } else {
            None
        }
    }

    /// The block at the given height.
    pub open spec fn block_at(self, height: u64) -> Option<Rc<B>> {
        if self.heights.contains_key(height) {
            self.block(self.heights[height])
        } else {
            None
        }
    }

    /// The height is the greatest one.
    pub open spec fn is_highest(self, height: u64) -> bool {
        &&& self.heights.contains_key(height)
        &&& forall|h: u64| #[trigger] self.heights.contains_key(h) ==> h <= height
    }

    /// The deploy with the given hash.
    pub open spec fn deploy(self, id: D::Id) -> Option<Rc<D>> {
        if self.deploys.contains_key(id) {
            Some(self.deploys[id])
        } else {
            None
        }
    }

    /// The results of executing a deploy.
    pub open spec fn results_of(self, id: D::Id) -> Map<B::Id, Rc<ExecutionResult>> {
        if self.results.contains_key(id) {
            self.results[id]
        } else {
            Map::empty()
        }
    }

    /// The storage with a result for a deploy, unless there was one for the same block.
    pub open spec fn with_result(self, id: D::Id, block_hash: B::Id, result: Rc<ExecutionResult>) -> StorageModel<B, D> {
        if self.results_of(id).contains_key(block_hash) {
            self
        } else {
            StorageModel { results: self.results.insert(id, self.results_of(id).insert(block_hash, result)), ..self }
        }
    }

    /// The storage with a number of results.
    pub open spec fn with_results(self, block_hash: B::Id, results: Seq<(D::Id, Rc<ExecutionResult>)>) -> StorageModel<B, D>
        decreases results.len(),
    {
        if results.len() == 0 {
            self
        } else {
            self.with_results(block_hash, results.drop_last()).with_result(
                results.last().0,
                block_hash,
                results.last().1,
            )
        }
    }

    /// The storage with a deploy, unless it was there already.
    pub open spec fn with_deploy(self, deploy: Rc<D>) -> StorageModel<B, D> {
        if self.deploys.contains_key(deploy.spec_id()) {
            self
        } else {
            StorageModel { deploys: self.deploys.insert(deploy.spec_id(), deploy), ..self }
        }
    }

    /// The storage with a block. The first block at a height keeps its place.
    pub open spec fn with_block(self, block: Rc<B>) -> StorageModel<B, D> {
        StorageModel {
            blocks: self.blocks.insert(block.spec_id(), block),
            heights: if self.heights.contains_key(block.spec_height()) {
                self.heights
            } else {
                self.heights.insert(block.spec_height(), block.spec_id())
            },
            ..self
        }
    }
}

/// Trait which will handle management of the various storage sub-components.
///
/// An implementation says how the stores are read and written; how requests are answered follows
/// from that.
pub trait StorageType: Sized {
    type Block: Value + WithBlockHeight;

    type Deploy: Value;

    /// What is stored.
    spec fn model(&self) -> StorageModel<Self::Block, Self::Deploy>;

    /// The stores are well-formed.
    spec fn wf(&self) -> bool;

    /// Stores a block and returns `true`, or returns `false` if it was there already.
    fn store_block(&mut self, block: Rc<Self::Block>) -> (r: bool)
        requires
            old(self).wf(),
        ensures
            final(self).wf(),
            r ==> final(self).model() == (StorageModel {
                blocks: old(self).model().blocks.insert(block.spec_id(), block),
                ..old(self).model()
            }),
            !r ==> old(self).model().blocks.contains_key(block.spec_id()) && final(self).model() == old(self).model(),
    ;

    /// Returns the block with the given hash.
    fn load_block(&self, block_hash: &<Self::Block as Value>::Id) -> (r: Option<Rc<Self::Block>>)
        requires
            self.wf(),
        ensures
            r == self.model().block(*block_hash),
    ;

    /// Stores the hash of the block at a height and returns `true`, or returns `false` if there was
    /// one already.
    fn store_height(&mut self, height: u64, block_hash: <Self::Block as Value>::Id) -> (r: bool)
        requires
            old(self).wf(),
        ensures
            final(self).wf(),
            r == !old(self).model().heights.contains_key(height),
            r ==> final(self).model() == (StorageModel {
                heights: old(self).model().heights.insert(height, block_hash),
                ..old(self).model()
            }),
            !r ==> final(self).model() == old(self).model(),
    ;

    /// Returns the hash of the block at a height.
    fn load_height(&self, height: u64) -> (r: Option<<Self::Block as Value>::Id>)
        requires
            self.wf(),
        ensures
            match r {
                Some(id) => self.model().heights.contains_key(height) && self.model().heights[height] == id,
                None => !self.model().heights.contains_key(height),
            },
    ;

    /// Returns the hash of the block at the greatest height.
    fn load_highest(&self) -> (r: Option<<Self::Block as Value>::Id>)
        requires
            self.wf(),
        ensures
            match r {
                Some(id) => exists|h: u64| #[trigger] self.model().is_highest(h) && self.model().heights[h] == id,
                None => self.model().heights == Map::<u64, <Self::Block as Value>::Id>::empty(),
            },
    ;

    /// Stores a deploy and returns `true`, or returns `false` if it was there already.
    fn store_deploy(&mut self, deploy: Rc<Self::Deploy>) -> (r: bool)
        requires
            old(self).wf(),
        ensures
            final(self).wf(),
            r == !old(self).model().deploys.contains_key(deploy.spec_id()),
            final(self).model() == old(self).model().with_deploy(deploy),
    ;

    /// Returns the deploy with the given hash.
    fn load_deploy(&self, deploy_hash: &<Self::Deploy as Value>::Id) -> (r: Option<Rc<Self::Deploy>>)
        requires
            self.wf(),
        ensures
            r == self.model().deploy(*deploy_hash),
    ;

    /// Returns the hashes of all deploys, in any order.
    fn deploy_ids(&self) -> (r: Vec<<Self::Deploy as Value>::Id>)
        requires
            self.wf(),
        ensures
            forall|id: <Self::Deploy as Value>::Id| #[trigger] r@.contains(id) == self.model().deploys.contains_key(id),
    ;

    /// Stores the result of executing a deploy and returns `true`, or returns `false` if there was
    /// one already for the block.
    fn store_execution_result(
        &mut self,
        deploy_hash: <Self::Deploy as Value>::Id,
        block_hash: <Self::Block as Value>::Id,
        execution_result: Rc<ExecutionResult>,
    ) -> (r: bool)
        requires
            old(self).wf(),
        ensures
            final(self).wf(),
            r == !old(self).model().results_of(deploy_hash).contains_key(block_hash),
            final(self).model() == old(self).model().with_result(deploy_hash, block_hash, execution_result),
    ;

    /// Returns the results of executing a deploy.
    fn load_metadata(&self, deploy_hash: &<Self::Deploy as Value>::Id) -> (r: DeployMetadata<Self::Block>)
        requires
            self.wf(),
        ensures
            r.wf(),
            r.execution_results@ == self.model().results_of(*deploy_hash),
    ;

    /// Stores a chainspec, in place of an earlier one of the same version.
    fn store_chainspec(&mut self, version: Version, chainspec: Rc<Chainspec>)
        requires
            old(self).wf(),
        ensures
            final(self).wf(),
            final(self).model() == (StorageModel {
                chainspecs: old(self).model().chainspecs.insert(version@, chainspec),
                ..old(self).model()
            }),
    ;

    /// Returns the chainspec of a version.
    fn load_chainspec(&self, version: &Version) -> (r: Option<Rc<Chainspec>>)
        requires
            self.wf(),
        ensures
            match r {
                Some(c) => self.model().chainspecs.contains_key(version@) && self.model().chainspecs[version@] == c,
                None => !self.model().chainspecs.contains_key(version@),
            },
    ;

    /// Stores a block together with its height. Returns whether it is the first one at its height.
    fn put_block(&mut self, block: Rc<Self::Block>) -> (r: bool)
        requires
            old(self).wf(),
            old(self).model().blocks.contains_key(block.spec_id()) ==> old(self).model().heights.contains_key(
                block.spec_height(),
            ),
        ensures
            final(self).wf(),
            r == !old(self).model().heights.contains_key(block.spec_height()),
            final(self).model() == old(self).model().with_block(block) || (old(self).model().blocks.contains_key(
                block.spec_id(),
            ) && final(self).model() == old(self).model()),
    {
        let height = block.height();
        let block_hash = *block.id();
        let height_result = self.store_height(height, block_hash);
        let _block_result = self.store_block(block);
        assert(height_result ==> _block_result);
        height_result
    }

    /// Returns the block with the given hash.
    fn get_block(&self, block_hash: <Self::Block as Value>::Id) -> (r: Option<Rc<Self::Block>>)
        requires
            self.wf(),
        ensures
            r == self.model().block(block_hash),
    {
        self.load_block(&block_hash)
    }

    /// Returns the block at the given height.
    fn get_block_at_height(&self, block_height: u64) -> (r: Option<Rc<Self::Block>>)
        requires
            self.wf(),
        ensures
            r == self.model().block_at(block_height),
    {
        match self.load_height(block_height) {
            Some(block_hash) => self.load_block(&block_hash),
            None => None,
        }
    }

    /// Returns the block at the greatest height.
    fn get_highest_block(&self) -> (r: Option<Rc<Self::Block>>)
        requires
            self.wf(),
        ensures
            self.model().heights == Map::<u64, <Self::Block as Value>::Id>::empty() ==> r is None,
            forall|h: u64| #[trigger] self.model().is_highest(h) ==> r == self.model().block_at(h),
            r is Some ==> exists|h: u64| #[trigger] self.model().is_highest(h),
    {
        match self.load_highest() {
            Some(block_hash) => self.load_block(&block_hash),
            None => None,
        }
    }

    /// Returns the header of the block with the given hash.
    fn get_block_header(&self, block_hash: <Self::Block as Value>::Id) -> (r: Option<<Self::Block as Value>::Header>)
        requires
            self.wf(),
        ensures
            r == match self.model().block(block_hash) {
                Some(block) => Some(block.spec_header()),
                None => None,
            },
    {
        match self.load_block(&block_hash) {
            Some(block) => Some(block.header().share()),
            None => None,
        }
    }

    /// Stores a deploy. Returns whether it was stored.
    fn put_deploy(&mut self, deploy: Rc<Self::Deploy>) -> (r: bool)
        requires
            old(self).wf(),
        ensures
            final(self).wf(),
            r == !old(self).model().deploys.contains_key(deploy.spec_id()),
            final(self).model() == old(self).model().with_deploy(deploy),
    {
        self.store_deploy(deploy)
    }

    /// Returns the deploys with the given hashes, as far as they are there.
    fn get_deploys(&self, deploy_hashes: &Vec<<Self::Deploy as Value>::Id>) -> (r: Vec<Option<Rc<Self::Deploy>>>)
        requires
            self.wf(),
        ensures
            r@ == deploys_for(self.model(), deploy_hashes@),
    {
        let mut results: Vec<Option<Rc<Self::Deploy>>> = Vec::new();
        let mut i: usize = 0;
        while i < deploy_hashes.len()
            invariant
                i <= deploy_hashes@.len(),
                self.wf(),
                results@ == deploys_for(self.model(), deploy_hashes@).take(i as int),
            decreases deploy_hashes@.len() - i,
        {
            results.push(self.load_deploy(&deploy_hashes[i]));
            assert(results@ =~= deploys_for(self.model(), deploy_hashes@).take(i + 1));
            i += 1;
        }
        assert(results@ =~= deploys_for(self.model(), deploy_hashes@));
        results
    }

    /// Returns the headers of the deploys with the given hashes, as far as they are there.
    fn get_deploy_headers(&self, deploy_hashes: &Vec<<Self::Deploy as Value>::Id>) -> (r: Vec<
        Option<<Self::Deploy as Value>::Header>,
    >)
        requires
            self.wf(),
        ensures
            r@ == deploy_headers_for(self.model(), deploy_hashes@),
    {
        let mut results: Vec<Option<<Self::Deploy as Value>::Header>> = Vec::new();
        let mut i: usize = 0;
        while i < deploy_hashes.len()
            invariant
                i <= deploy_hashes@.len(),
                self.wf(),
                results@ == deploy_headers_for(self.model(), deploy_hashes@).take(i as int),
            decreases deploy_hashes@.len() - i,
        {
            let result = match self.load_deploy(&deploy_hashes[i]) {
                Some(deploy) => Some(deploy.header().share()),
                None => None,
            };
            results.push(result);
            assert(results@ =~= deploy_headers_for(self.model(), deploy_hashes@).take(i + 1));
            i += 1;
        }
        assert(results@ =~= deploy_headers_for(self.model(), deploy_hashes@));
        results
    }

    /// Stores the results of executing the deploys of a block. Those that are stored already stay as
    /// they are.
    fn put_execution_results(
        &mut self,
        block_hash: <Self::Block as Value>::Id,
        execution_results: &Vec<(<Self::Deploy as Value>::Id, Rc<ExecutionResult>)>,
    )
        requires
            old(self).wf(),
        ensures
            final(self).wf(),
            final(self).model() == old(self).model().with_results(block_hash, execution_results@),
    {
        let ghost pre = self.model();
        let ghost all = execution_results@;
        let mut i: usize = 0;
        assert(all.take(0) =~= Seq::empty());
        while i < execution_results.len()
            invariant
                i <= all.len(),
                all == execution_results@,
                self.wf(),
                self.model() == pre.with_results(block_hash, all.take(i as int)),
            decreases all.len() - i,
        {
            proof {
                assert(all.take(i + 1).drop_last() =~= all.take(i as int));
                assert(all.take(i + 1).last() == all[i as int]);
            }
            let deploy_hash = execution_results[i].0;
            let result = execution_results[i].1.clone();
            let _ = self.store_execution_result(deploy_hash, block_hash, result);
            i += 1;
        }
        assert(all.take(all.len() as int) =~= all);
    }

    /// Returns a deploy and the results of executing it.
    fn get_deploy_and_metadata(&self, deploy_hash: <Self::Deploy as Value>::Id) -> (r: Option<
        (Rc<Self::Deploy>, DeployMetadata<Self::Block>),
    >)
        requires
            self.wf(),
        ensures
            match r {
                Some((deploy, metadata)) => {
                    &&& self.model().deploy(deploy_hash) == Some(deploy)
                    &&& metadata.wf()
                    &&& metadata.execution_results@ == self.model().results_of(deploy_hash)
                },
                None => self.model().deploy(deploy_hash) is None,
            },
    {
        match self.load_deploy(&deploy_hash) {
            Some(deploy) => Some((deploy, self.load_metadata(&deploy_hash))),
            None => None,
        }
    }

    /// Answers a request, or sends a deploy to a peer that asks for it if it is there.
    fn handle_event<I>(&mut self, event: Event<Self::Block, Self::Deploy, I>) -> (r: Effect<Self::Block, Self::Deploy, I>)
        requires
            old(self).wf(),
            can_handle(old(self).model(), event),
        ensures
            final(self).wf(),
            handled(old(self).model(), event, final(self).model(), r),
    {
        match event {
            Event::GetDeployForPeer { deploy_hash, peer } => match self.load_deploy(&deploy_hash) {
                Some(deploy) => Effect::SendGetResponse { peer, deploy },
                None => Effect::Nothing,
            },
            Event::Request(responder, request) => {
                let answer = match request {
                    StorageRequest::PutBlock { block } => Answer::Stored(self.put_block(block)),
                    StorageRequest::GetBlock { block_hash } => Answer::Block(self.get_block(block_hash)),
                    StorageRequest::GetBlockAtHeight { height } => Answer::Block(self.get_block_at_height(height)),
                    StorageRequest::GetHighestBlock => Answer::Block(self.get_highest_block()),
                    StorageRequest::GetBlockHeader { block_hash } => Answer::BlockHeader(self.get_block_header(block_hash)),
                    StorageRequest::PutDeploy { deploy } => Answer::Stored(self.put_deploy(deploy)),
                    StorageRequest::GetDeploys { deploy_hashes } => Answer::Deploys(self.get_deploys(&deploy_hashes)),
                    StorageRequest::GetDeployHeaders { deploy_hashes } => Answer::DeployHeaders(
                        self.get_deploy_headers(&deploy_hashes),
                    ),
                    StorageRequest::PutExecutionResults { block_hash, execution_results } => {
                        self.put_execution_results(block_hash, &execution_results);
                        Answer::Done
                    },
                    StorageRequest::GetDeployAndMetadata { deploy_hash } => Answer::DeployAndMetadata(
                        self.get_deploy_and_metadata(deploy_hash),
                    ),
                    StorageRequest::PutChainspec { version, chainspec } => {
                        self.store_chainspec(version, chainspec);
                        Answer::Done
                    },
                    StorageRequest::GetChainspec { version } => Answer::Chainspec(self.load_chainspec(&version)),
                };
                Effect::Respond(responder, answer)
            },
        }
    }
}

/// A request to the storage component.
pub enum StorageRequest<B: Value, D: Value> {
    /// Store a block.
    PutBlock {
        block: Rc<B>,
    },
    /// Retrieve the block with the given hash.
    GetBlock {
        block_hash: B::Id,
    },
    /// Retrieve the block at the given height.
    GetBlockAtHeight {
        height: u64,
    },
    /// Retrieve the highest block.
    GetHighestBlock,
    /// Retrieve the header of the block with the given hash.
    GetBlockHeader {
        block_hash: B::Id,
    },
    /// Store a deploy.
    PutDeploy {
        deploy: Rc<D>,
    },
    /// Retrieve the deploys with the given hashes.
    GetDeploys {
        deploy_hashes: Vec<D::Id>,
    },
    /// Retrieve the headers of the deploys with the given hashes.
    GetDeployHeaders {
        deploy_hashes: Vec<D::Id>,
    },
    /// Store the results of executing the deploys of a block.
    PutExecutionResults {
        block_hash: B::Id,
        execution_results: Vec<(D::Id, Rc<ExecutionResult>)>,
    },
    /// Retrieve a deploy and the results of executing it.
    GetDeployAndMetadata {
        deploy_hash: D::Id,
    },
    /// Store a chainspec.
    PutChainspec {
        version: Version,
        chainspec: Rc<Chainspec>,
    },
    /// Retrieve the chainspec of a version.
    GetChainspec {
        version: Version,
    },
}

/// An event of the storage component.
pub enum Event<B: Value, D: Value, I> {
    /// A peer asks for a deploy.
    GetDeployForPeer {
        deploy_hash: D::Id,
        peer: I,
    },
    /// A request, with the number of who is to be answered.
    Request(u64, StorageRequest<B, D>),
}

/// The answer to a request.
pub enum Answer<B: Value, D: Value> {
    /// Whether something was stored.
    Stored(bool),
    /// A block, if it was found.
    Block(Option<Rc<B>>),
    /// The header of a block, if it was found.
    BlockHeader(Option<B::Header>),
    /// The deploys that were found.
    Deploys(Vec<Option<Rc<D>>>),
    /// The headers of the deploys that were found.
    DeployHeaders(Vec<Option<D::Header>>),
    /// A deploy with the results of executing it, if it was found.
    DeployAndMetadata(Option<(Rc<D>, DeployMetadata<B>)>),
    /// A chainspec, if it was found.
    Chainspec(Option<Rc<Chainspec>>),
    /// It was done.
    Done,
}

/// Something for the component's surroundings to do.
pub enum Effect<B: Value, D: Value, I> {
    /// Answer the one with the given number.
    Respond(u64, Answer<B, D>),
    /// Send a deploy to the peer that asked for it.
    SendGetResponse {
        peer: I,
        deploy: Rc<D>,
    },
    /// There is nothing to do.
    Nothing,
}

/// The event can be handled: a block that is stored already has an entry at its height.
pub open spec fn can_handle<B: Value + WithBlockHeight, D: Value, I>(m: StorageModel<B, D>, event: Event<B, D, I>) -> bool {
    event matches Event::Request(_, StorageRequest::PutBlock { block }) ==> (m.blocks.contains_key(block.spec_id())
        ==> m.heights.contains_key(block.spec_height()))
}

/// The event has been handled, and the effect is what follows from it.
pub open spec fn handled<B: Value + WithBlockHeight, D: Value, I>(
    m: StorageModel<B, D>,
    event: Event<B, D, I>,
    after: StorageModel<B, D>,
    effect: Effect<B, D, I>,
) -> bool {
    match event {
        Event::GetDeployForPeer { deploy_hash, peer } => {
            &&& after == m
            &&& effect == match m.deploy(deploy_hash) {
                Some(deploy) => Effect::SendGetResponse { peer, deploy },
                None => Effect::<B, D, I>::Nothing,
            }
        },
        Event::Request(responder, request) => {
            &&& effect matches Effect::Respond(answered, answer)
            &&& answered == responder
            &&& answers(m, request, after, answer)
        },
    }
}

/// The request has been handled, and the answer is right.
pub open spec fn answers<B: Value + WithBlockHeight, D: Value>(
    m: StorageModel<B, D>,
    request: StorageRequest<B, D>,
    after: StorageModel<B, D>,
    answer: Answer<B, D>,
) -> bool {
    match request {
        StorageRequest::PutBlock { block } => {
            &&& answer == Answer::<B, D>::Stored(!m.heights.contains_key(block.spec_height()))
            &&& after == m.with_block(block) || (m.blocks.contains_key(block.spec_id()) && after == m)
        },
        StorageRequest::GetBlock { block_hash } => after == m && answer == Answer::<B, D>::Block(m.block(block_hash)),
        StorageRequest::GetBlockAtHeight { height } => after == m && answer == Answer::<B, D>::Block(m.block_at(height)),
        StorageRequest::GetHighestBlock => {
            &&& after == m
            &&& answer matches Answer::Block(block)
            &&& m.heights == Map::<u64, B::Id>::empty() ==> block is None
            &&& forall|h: u64| #[trigger] m.is_highest(h) ==> block == m.block_at(h)
            &&& block is Some ==> exists|h: u64| #[trigger] m.is_highest(h)
        },
        StorageRequest::GetBlockHeader { block_hash } => after == m && answer == Answer::<B, D>::BlockHeader(
            match m.block(block_hash) {
                Some(block) => Some(block.spec_header()),
                None => None,
            },
        ),
        StorageRequest::PutDeploy { deploy } => {
            &&& answer == Answer::<B, D>::Stored(!m.deploys.contains_key(deploy.spec_id()))
            &&& after == m.with_deploy(deploy)
        },
        StorageRequest::GetDeploys { deploy_hashes } => {
            &&& after == m
            &&& answer matches Answer::Deploys(deploys)
            &&& deploys@ == deploys_for(m, deploy_hashes@)
        },
        StorageRequest::GetDeployHeaders { deploy_hashes } => {
            &&& after == m
            &&& answer matches Answer::DeployHeaders(headers)
            &&& headers@ == deploy_headers_for(m, deploy_hashes@)
        },
        StorageRequest::PutExecutionResults { block_hash, execution_results } => {
            &&& after == m.with_results(block_hash, execution_results@)
            &&& answer == Answer::<B, D>::Done
        },
        StorageRequest::GetDeployAndMetadata { deploy_hash } => {
            &&& after == m
            &&& answer matches Answer::DeployAndMetadata(found)
            &&& match found {
                Some((deploy, metadata)) => {
                    &&& m.deploy(deploy_hash) == Some(deploy)
                    &&& metadata.wf()
                    &&& metadata.execution_results@ == m.results_of(deploy_hash)
                },
                None => m.deploy(deploy_hash) is None,
            }
        },
        StorageRequest::PutChainspec { version, chainspec } => {
            &&& after == (StorageModel { chainspecs: m.chainspecs.insert(version@, chainspec), ..m })
            &&& answer == Answer::<B, D>::Done
        },
        StorageRequest::GetChainspec { version } => after == m && answer == Answer::<B, D>::Chainspec(
            if m.chainspecs.contains_key(version@) {
                Some(m.chainspecs[version@])
            } else {
                None
            },
        ),
    }
}

/// The deploys with the given hashes.
pub open spec fn deploys_for<B: Value + WithBlockHeight, D: Value>(m: StorageModel<B, D>, hashes: Seq<D::Id>) -> Seq<Option<Rc<D>>> {
    hashes.map_values(|id: D::Id| m.deploy(id))
}

/// The headers of the deploys with the given hashes.
pub open spec fn deploy_headers_for<B: Value + WithBlockHeight, D: Value>(m: StorageModel<B, D>, hashes: Seq<D::Id>) -> Seq<
    Option<D::Header>,
> {
    hashes.map_values(
        |id: D::Id|
            match m.deploy(id) {
                Some(deploy) => Some(deploy.spec_header()),
                None => None,
            },
    )
}

/// All stored deploys tell when they expire.
pub open spec fn expiries_ok(m: StorageModel<Block, Deploy>) -> bool {
    forall|h: DeployHash| #[trigger] m.deploys.contains_key(h) ==> m.deploys[h].header.wf()
}

/// The number of deploys before the first expired one.
pub open spec fn before_expired(deploys: Seq<Rc<Deploy>>, current_instant: Timestamp) -> nat
    decreases deploys.len(),
{
    if deploys.len() == 0 || deploys[0].header.is_expired(current_instant) {
        0
    } else {
        1 + before_expired(deploys.skip(1), current_instant)
    }
}

/// The deploys that are not finalized, by their hashes.
pub open spec fn unfinalized(deploys: Seq<Rc<Deploy>>, finalized: Set<DeployHash>) -> Map<DeployHash, Rc<DeployHeader>>
    decreases deploys.len(),
{
    if deploys.len() == 0 {
        Map::empty()
    } else {
        let rest = unfinalized(deploys.drop_last(), finalized);
        let last = deploys.last();
        if finalized.contains(last.hash) {
            rest
        } else {
            rest.insert(last.hash, last.header)
        }
    }
}

/// The deploys that are pending if they are found in storage in the given order: those before the
/// first expired one that are not finalized.
pub open spec fn pending_of(deploys: Seq<Rc<Deploy>>, finalized: Set<DeployHash>, current_instant: Timestamp) -> Map<
    DeployHash,
    Rc<DeployHeader>,
> {
    unfinalized(deploys.take(before_expired(deploys, current_instant) as int), finalized)
}

/// The deploys are all stored ones, in some order.
pub open spec fn all_deploys(m: StorageModel<Block, Deploy>, deploys: Seq<Rc<Deploy>>) -> bool {
    &&& forall|i: int|
        0 <= i < deploys.len() ==> m.deploys.contains_key((#[trigger] deploys[i]).hash)
            && m.deploys[deploys[i].hash] == deploys[i]
    &&& forall|h: DeployHash| #[trigger]
        m.deploys.contains_key(h) ==> exists|i: int| 0 <= i < deploys.len() && (#[trigger] deploys[i]).hash == h
}

/// The deploys of a block, without the transfers.
pub open spec fn deploys_in(block: &Block) -> Seq<DeployHash> {
    block.header.deploy_hashes@
}

/// The stored deploys among the given ones.
pub open spec fn stored_among(m: StorageModel<Block, Deploy>, hashes: Seq<DeployHash>) -> Seq<Rc<Deploy>> {
    hashes.filter(|h: DeployHash| m.deploys.contains_key(h)).map_values(|h: DeployHash| m.deploys[h])
}

/// The block at a height and its ancestors, down to the first that is missing or too old.
pub open spec fn recent_blocks(m: StorageModel<Block, Deploy>, height: int, oldest: int) -> Seq<Rc<Block>>
    decreases height + 1,
{
    if height < 0 {
        Seq::empty()
    } else {
        match m.block_at(height as u64) {
            Some(block) => if block.header.timestamp.0 < oldest {
                Seq::empty()
            } else {
                seq![block] + recent_blocks(m, height - 1, oldest)
            },
            None => Seq::empty(),
        }
    }
}

/// The stored deploys of the blocks, by their hashes.
pub open spec fn finalized_in(m: StorageModel<Block, Deploy>, blocks: Seq<Rc<Block>>) -> Map<DeployHash, Rc<DeployHeader>> {
    Map::new(
        |h: DeployHash|
            m.deploys.contains_key(h) && exists|i: int|
                0 <= i < blocks.len() && deploys_in(&#[trigger] blocks[i]).contains(h),
        |h: DeployHash| m.deploys[h].header,
    )
}

/// Returns those of the given deploys that are pending: the ones before the first expired one that
/// are not finalized.
pub fn pending_deploys(deploys: &Vec<Rc<Deploy>>, finalized: &DeployCollection, current_instant: Timestamp) -> (r: DeployCollection)
    requires
        finalized.wf(),
        forall|i: int| 0 <= i < deploys@.len() ==> (#[trigger] deploys@[i]).header.wf(),
    ensures
        r.wf(),
        r@ == pending_of(deploys@, finalized@.dom(), current_instant),
        crate::block_proposer::headers_ok(r@),
{
    let mut pending: DeployCollection = VecMap::new();
    let ghost total = before_expired(deploys@, current_instant);
    let mut i: usize = 0;
    assert(deploys@.take(0) =~= Seq::empty());
    assert(deploys@.skip(0) =~= deploys@);
    while i < deploys.len()
        invariant_except_break
            total == i + before_expired(deploys@.skip(i as int), current_instant),
        invariant
            i <= deploys@.len(),
            finalized.wf(),
            forall|j: int| 0 <= j < deploys@.len() ==> (#[trigger] deploys@[j]).header.wf(),
            pending.wf(),
            pending@ == unfinalized(deploys@.take(i as int), finalized@.dom()),
            crate::block_proposer::headers_ok(pending@),
        ensures
            total == i,
        decreases deploys@.len() - i,
    {
        let ghost rest = deploys@.skip(i as int);
        assert(rest[0] == deploys@[i as int]);
        let deploy = &deploys[i];
        let header = &deploy.header;
        if header.expired(current_instant) {
            break;
        }
        proof {
            assert(rest.skip(1) =~= deploys@.skip(i + 1));
            assert(deploys@.take(i + 1).drop_last() =~= deploys@.take(i as int));
            assert(deploys@.take(i + 1).last() == deploys@[i as int]);
        }
        if !finalized.contains_key(&deploy.hash) {
            let _ = pending.insert(deploy.hash, header.clone());
        }
        i += 1;
    }
    pending
}

/// Returns the stored deploys of a block.
pub fn load_block_deploys<S: StorageType<Block = Block, Deploy = Deploy>>(storage: &S, block: &Block) -> (r: Vec<Rc<Deploy>>)
    requires
        storage.wf(),
    ensures
        r@ == stored_among(storage.model(), deploys_in(block)),
{
    let deploy_hashes = &block.header.deploy_hashes;
    let ghost m = storage.model();
    let ghost p = |h: DeployHash| m.deploys.contains_key(h);
    let ghost f = |h: DeployHash| m.deploys[h];
    let results = storage.get_deploys(deploy_hashes);
    let mut deploys: Vec<Rc<Deploy>> = Vec::new();
    let mut i: usize = 0;
    assert(deploy_hashes@.take(0).filter(p) =~= Seq::empty()) by {
        reveal(Seq::filter);
    }
    while i < results.len()
        invariant
            i <= results@.len(),
            m == storage.model(),
            results@ == deploys_for(m, deploy_hashes@),
            p == (|h: DeployHash| m.deploys.contains_key(h)),
            f == (|h: DeployHash| m.deploys[h]),
            deploys@ == deploy_hashes@.take(i as int).filter(p).map_values(f),
        decreases results@.len() - i,
    {
        let ghost h = deploy_hashes@[i as int];
        let ghost before = deploy_hashes@.take(i as int);
        proof {
            before.lemma_filter_push(h, p);
            assert(before.push(h) =~= deploy_hashes@.take(i + 1));
        }
        if let Some(deploy) = &results[i] {
            deploys.push(deploy.clone());
            assert(deploys@ =~= before.filter(p).push(h).map_values(f));
        }
        i += 1;
    }
    assert(deploy_hashes@.take(deploy_hashes@.len() as int) =~= deploy_hashes@);
    deploys
}

/// Returns the pending deploys in storage.
pub fn load_pending_deploys<S: StorageType<Block = Block, Deploy = Deploy>>(
    storage: &S,
    finalized: &DeployCollection,
    current_instant: Timestamp,
) -> (r: DeployCollection)
    requires
        storage.wf(),
        storage.model().consistent(),
        expiries_ok(storage.model()),
        finalized.wf(),
    ensures
        r.wf(),
        crate::block_proposer::headers_ok(r@),
        exists|deploys: Seq<Rc<Deploy>>| #[trigger]
            all_deploys(storage.model(), deploys) && r@ == pending_of(deploys, finalized@.dom(), current_instant),
{
    let ids = storage.deploy_ids();
    let ghost m = storage.model();
    let mut deploys: Vec<Rc<Deploy>> = Vec::new();
    let mut i: usize = 0;
    while i < ids.len()
        invariant
            i <= ids@.len(),
            storage.wf(),
            m == storage.model(),
            m.consistent(),
            expiries_ok(m),
            forall|id: DeployHash| #[trigger] ids@.contains(id) == m.deploys.contains_key(id),
            deploys@.len() == i,
            forall|j: int|
                0 <= j < i ==> {
                    &&& (#[trigger] deploys@[j]).hash == ids@[j]
                    &&& m.deploys.contains_key(ids@[j])
                    &&& m.deploys[ids@[j]] == deploys@[j]
                },
        decreases ids@.len() - i,
    {
        assert(ids@.contains(ids@[i as int]));
        if let Some(deploy) = storage.load_deploy(&ids[i]) {
            deploys.push(deploy);
        }
        i += 1;
    }
    proof {
        assert forall|h: DeployHash| #[trigger] m.deploys.contains_key(h) implies exists|i: int|
            0 <= i < deploys@.len() && (#[trigger] deploys@[i]).hash == h by {
            assert(ids@.contains(h));
            let i = ids@.index_of(h);
            assert(ids@[i] == h);
            assert(deploys@[i].hash == h);
        }
        assert(all_deploys(m, deploys@));
    }
    pending_deploys(&deploys, finalized, current_instant)
}

/// The state of the block proposer is what the stored blocks and deploys make of it.
pub open spec fn proposer_state_loaded(
    m: StorageModel<Block, Deploy>,
    latest_block_height: u64,
    version: crate::version::VersionModel,
    current_instant: Timestamp,
    state: crate::block_proposer::StateModel,
) -> bool {
    &&& state.finalized == finalized_in(
        m,
        recent_blocks(
            m,
            latest_block_height as int,
            current_instant.0 - m.chainspecs[version].genesis.deploy_config.max_ttl.0,
        ),
    )
    &&& exists|deploys: Seq<Rc<Deploy>>| #[trigger]
        all_deploys(m, deploys) && state.pending_map() == pending_of(deploys, state.finalized.dom(), current_instant)
    &&& state == crate::block_proposer::StateModel::of(state.pending, state.finalized)
}

/// Returns what the block proposer starts with: the deploys of recent blocks, up to the latest one,
/// and the pending deploys.
///
/// This method is intended to only be used by the joiner when transitioning to the validator state.
pub fn load_block_proposer_state<S: StorageType<Block = Block, Deploy = Deploy>>(
    storage: &S,
    latest_block_height: u64,
    chainspec_version: &Version,
    current_instant: Timestamp,
) -> (r: BlockProposerState)
    requires
        storage.wf(),
        storage.model().consistent(),
        expiries_ok(storage.model()),
        storage.model().chainspecs.contains_key(chainspec_version@),
        storage.model().chainspecs[chainspec_version@].genesis.deploy_config.max_ttl.0 <= current_instant.0,
    ensures
        r.wf(),
        proposer_state_loaded(storage.model(), latest_block_height, chainspec_version@, current_instant, r@),
{
    let ghost m = storage.model();
    let max_ttl = match storage.load_chainspec(chainspec_version) {
        Some(chainspec) => chainspec.genesis.deploy_config.max_ttl,
        // If we can't get our hands on a chainspec, then we can't get a max_ttl to compare blocks
        // and deploys against.
        None => crate::timestamp::TimeDiff(0),
    };
    let oldest = current_instant - max_ttl;
    let ghost blocks = recent_blocks(m, latest_block_height as int, oldest.0 as int);
    let ghost mut seen: Seq<Rc<Block>> = Seq::empty();
    let mut finalized: DeployCollection = VecMap::new();
    let mut next = Some(latest_block_height);
    assert(finalized@ =~= finalized_in(m, seen));
    assert(seen + blocks =~= blocks);
    loop
        invariant_except_break
            blocks == seen + match next {
                Some(height) => recent_blocks(m, height as int, oldest.0 as int),
                None => Seq::empty(),
            },
        invariant
            storage.wf(),
            m == storage.model(),
            m.consistent(),
            expiries_ok(m),
            finalized.wf(),
            crate::block_proposer::headers_ok(finalized@),
            finalized@ == finalized_in(m, seen),
        ensures
            seen == blocks,
        decreases match next {
            Some(height) => height + 1,
            None => 0int,
        },
    {
        proof {
            assert(seen + Seq::<Rc<Block>>::empty() =~= seen);
        }
        let height = match next {
            Some(height) => height,
            None => break,
        };
        let block = match storage.get_block_at_height(height) {
            Some(block) => block,
            None => break,
        };
        if block.header.timestamp.0 < oldest.0 {
            break;
        }
        let deploys = load_block_deploys(storage, &block);
        let ghost hashes = deploys_in(&block);
        let ghost p = |h: DeployHash| m.deploys.contains_key(h);
        let ghost found = hashes.filter(p);
        let ghost before = finalized@;
        let mut i: usize = 0;
        while i < deploys.len()
            invariant
                i <= deploys@.len(),
                m.consistent(),
                expiries_ok(m),
                p == (|h: DeployHash| m.deploys.contains_key(h)),
                found == hashes.filter(p),
                deploys@ == found.map_values(|h: DeployHash| m.deploys[h]),
                forall|h: DeployHash| #[trigger] before.contains_key(h) ==> m.deploys.contains_key(h) && before[h] == m.deploys[h].header,
                finalized.wf(),
                crate::block_proposer::headers_ok(finalized@),
                forall|h: DeployHash| #[trigger]
                    finalized@.contains_key(h) == (before.contains_key(h) || found.take(i as int).contains(h)),
                forall|h: DeployHash| #[trigger] finalized@.contains_key(h) ==> m.deploys.contains_key(h) && finalized@[h] == m.deploys[h].header,
            decreases deploys@.len() - i,
        {
            let deploy = &deploys[i];
            let ghost h = found[i as int];
            proof {
                hashes.lemma_filter_pred(p, i as int);
                assert(m.deploys.contains_key(h));
                assert(deploy.hash == h);
                assert(found.take(i + 1) =~= found.take(i as int).push(h));
                assert forall|x: DeployHash| #[trigger] found.take(i + 1).contains(x) == (found.take(i as int).contains(x) || x == h) by {
                    lemma_push_contains(found.take(i as int), h, x);
                }
            }
            let _ = finalized.insert(deploy.hash, deploy.header.clone());
            i += 1;
        }
        proof {
            assert(found.take(found.len() as int) =~= found);
            lemma_one_more_block(m, seen, block, before, finalized@);
            if height == 0 {
                assert(recent_blocks(m, -1, oldest.0 as int) =~= Seq::empty());
            }
            assert(blocks =~= seen.push(block) + recent_blocks(m, height - 1, oldest.0 as int));
            seen = seen.push(block);
        }
        next = if height > 0 {
            Some(height - 1)
        } else {
            None
        };
    }
    // Once finalized block's deploys are loaded, iterate over Deploy store to find 'pending'
    // deploys.
    let pending = load_pending_deploys(storage, &finalized, current_instant);
    BlockProposerState::with_pending_and_finalized(pending, finalized)
}

/// Something is in a sequence with one more element if it is that element or was there before.
proof fn lemma_push_contains(s: Seq<DeployHash>, x: DeployHash, y: DeployHash)
    ensures
        s.push(x).contains(y) == (s.contains(y) || x == y),
{
    let t = s.push(x);
    if t.contains(y) {
        let i = t.index_of(y);
        assert(t[i] == y);
        if i < s.len() {
            assert(s[i] == y);
        }
    }
    if s.contains(y) {
        let i = s.index_of(y);
        assert(t[i] == y);
    }
    assert(t[s.len() as int] == x);
}

/// The deploys of one more block are finalized.
proof fn lemma_one_more_block(
    m: StorageModel<Block, Deploy>,
    seen: Seq<Rc<Block>>,
    block: Rc<Block>,
    before: Map<DeployHash, Rc<DeployHeader>>,
    after: Map<DeployHash, Rc<DeployHeader>>,
)
    requires
        before == finalized_in(m, seen),
        ({
            let found = deploys_in(&block).filter(|h: DeployHash| m.deploys.contains_key(h));
            forall|h: DeployHash| #[trigger] after.contains_key(h) == (before.contains_key(h) || found.contains(h))
        }),
        forall|h: DeployHash| #[trigger] after.contains_key(h) ==> m.deploys.contains_key(h) && after[h] == m.deploys[h].header,
    ensures
        after == finalized_in(m, seen.push(block)),
{
    broadcast use vstd::seq_lib::group_filter_ensures;

    let hashes = deploys_in(&block);
    let p = |h: DeployHash| m.deploys.contains_key(h);
    let found = hashes.filter(p);
    let goal = finalized_in(m, seen.push(block));
    assert forall|h: DeployHash| after.contains_key(h) == goal.contains_key(h) by {
        if after.contains_key(h) {
            if before.contains_key(h) {
                let i = choose|i: int| 0 <= i < seen.len() && deploys_in(&#[trigger] seen[i]).contains(h);
                assert(seen.push(block)[i] == seen[i]);
            } else {
                hashes.lemma_filter_contains_rev(p, h);
                assert(seen.push(block)[seen.len() as int] == block);
            }
        }
        if goal.contains_key(h) {
            let all = seen.push(block);
            let i = choose|i: int| 0 <= i < all.len() && deploys_in(&#[trigger] all[i]).contains(h);
            if i < seen.len() {
                assert(seen[i] == all[i]);
            } else {
                let j = hashes.index_of(h);
                assert(hashes[j] == h);
                assert(p(hashes[j]));
                assert(found.contains(hashes[j]));
            }
        }
    }
    assert(after =~= goal);
}

/// Concrete type of `Storage` backed by in-memory stores.
pub struct InMemStorage<B: Value, D: Value> {
    block_store: VecMap<B::Id, Rc<B>>,
    block_height_store: VecMap<u64, B::Id>,
    deploy_store: VecMap<D::Id, Rc<D>>,
    deploy_metadata: VecMap<D::Id, DeployMetadata<B>>,
    chainspec_store: VersionMap<Rc<Chainspec>>,
}

impl<B: Value + WithBlockHeight, D: Value> InMemStorage<B, D> {
    /// Creates a storage without contents.
    pub fn new() -> (r: InMemStorage<B, D>)
        ensures
            r.wf(),
            r.model() == StorageModel::<B, D>::empty(),
    {
        let r = InMemStorage {
            block_store: VecMap::new(),
            block_height_store: VecMap::new(),
            deploy_store: VecMap::new(),
            deploy_metadata: VecMap::new(),
            chainspec_store: VersionMap::new(),
        };
        assert(r.model() =~= StorageModel::<B, D>::empty());
        r
    }
}

impl<B: Value + WithBlockHeight, D: Value> StorageType for InMemStorage<B, D> {
    type Block = B;

    type Deploy = D;

    closed spec fn model(&self) -> StorageModel<B, D> {
        StorageModel {
            blocks: self.block_store@,
            heights: self.block_height_store@,
            deploys: self.deploy_store@,
            results: self.deploy_metadata@.map_values(|d: DeployMetadata<B>| d.execution_results@),
            chainspecs: self.chainspec_store@,
        }
    }

    closed spec fn wf(&self) -> bool {
        &&& self.block_store.wf()
        &&& self.block_height_store.wf()
        &&& self.deploy_store.wf()
        &&& self.deploy_metadata.wf()
        &&& self.chainspec_store.wf()
        &&& forall|id: D::Id| #[trigger] self.deploy_metadata@.contains_key(id) ==> self.deploy_metadata@[id].wf()
    }

    fn store_block(&mut self, block: Rc<B>) -> (r: bool)
        ensures
            r == !old(self).model().blocks.contains_key(block.spec_id()),
    {
        let id = *block.id();
        if self.block_store.contains_key(&id) {
            false
        } else {
            let _ = self.block_store.insert(id, block);
            true
        }
    }

    fn load_block(&self, block_hash: &B::Id) -> (r: Option<Rc<B>>) {
        match self.block_store.get(block_hash) {
            Some(block) => Some(block.clone()),
            None => None,
        }
    }

    fn store_height(&mut self, height: u64, block_hash: B::Id) -> (r: bool) {
        if self.block_height_store.contains_key(&height) {
            false
        } else {
            let _ = self.block_height_store.insert(height, block_hash);
            true
        }
    }

    fn load_height(&self, height: u64) -> (r: Option<B::Id>) {
        match self.block_height_store.get(&height) {
            Some(id) => Some(*id),
            None => None,
        }
    }

    fn load_highest(&self) -> (r: Option<B::Id>) {
        let ghost all = self.block_height_store.seq();
        if self.block_height_store.len() == 0 {
            assert(self.block_height_store@ =~= Map::<u64, B::Id>::empty());
            return None;
        }
        let mut best: usize = 0;
        let mut i: usize = 1;
        while i < self.block_height_store.len()
            invariant
                1 <= i <= all.len(),
                best < i,
                all == self.block_height_store.seq(),
                forall|j: int| 0 <= j < i ==> (#[trigger] all[j]).0 <= all[best as int].0,
            decreases all.len() - i,
        {
            if self.block_height_store.key_at(i) > self.block_height_store.key_at(best) {
                best = i;
            }
            i += 1;
        }
        proof {
            crate::collections::lemma_entry_map_at(all, best as int);
            let height = all[best as int].0;
            let m = self.model();
            assert forall|h: u64| #[trigger] m.heights.contains_key(h) implies h <= height by {
                let j = crate::collections::key_index(all, h);
                assert(all[j].0 == h);
            }
            assert(m.is_highest(height));
        }
        Some(*self.block_height_store.value_at(best))
    }

    fn store_deploy(&mut self, deploy: Rc<D>) -> (r: bool) {
        let id = *deploy.id();
        if self.deploy_store.contains_key(&id) {
            false
        } else {
            let _ = self.deploy_store.insert(id, deploy);
            true
        }
    }

    fn load_deploy(&self, deploy_hash: &D::Id) -> (r: Option<Rc<D>>) {
        match self.deploy_store.get(deploy_hash) {
            Some(deploy) => Some(deploy.clone()),
            None => None,
        }
    }

    fn deploy_ids(&self) -> (r: Vec<D::Id>) {
        let ghost all = self.deploy_store.seq();
        let mut ids: Vec<D::Id> = Vec::new();
        let mut i: usize = 0;
        while i < self.deploy_store.len()
            invariant
                i <= all.len(),
                all == self.deploy_store.seq(),
                ids@.len() == i,
                forall|j: int| 0 <= j < i ==> #[trigger] ids@[j] == all[j].0,
            decreases all.len() - i,
        {
            ids.push(self.deploy_store.key_at(i));
            i += 1;
        }
        proof {
            assert forall|id: D::Id| #[trigger] ids@.contains(id) == self.model().deploys.contains_key(id) by {
                if ids@.contains(id) {
                    let j = ids@.index_of(id);
                    assert(all[j].0 == id);
                }
                if crate::collections::has_key(all, id) {
                    let j = crate::collections::key_index(all, id);
                    assert(ids@[j] == id);
                }
            }
        }
        ids
    }

    fn store_execution_result(&mut self, deploy_hash: D::Id, block_hash: B::Id, execution_result: Rc<ExecutionResult>) -> (r: bool) {
        match self.deploy_metadata.get_mut(&deploy_hash) {
            Some(metadata) => {
                if metadata.execution_results.contains_key(&block_hash) {
                    false
                } else {
                    let _ = metadata.execution_results.insert(block_hash, execution_result);
                    true
                }
            },
            None => {
                let _ = self.deploy_metadata.insert(deploy_hash, DeployMetadata::new(block_hash, execution_result));
                true
            },
        }
    }

    fn load_metadata(&self, deploy_hash: &D::Id) -> (r: DeployMetadata<B>) {
        match self.deploy_metadata.get(deploy_hash) {
            Some(metadata) => metadata.duplicate(),
            None => DeployMetadata::none(),
        }
    }

    fn store_chainspec(&mut self, version: Version, chainspec: Rc<Chainspec>) {
        self.chainspec_store.insert(version, chainspec);
    }

    fn load_chainspec(&self, version: &Version) -> (r: Option<Rc<Chainspec>>) {
        match self.chainspec_store.get(version) {
            Some(chainspec) => Some(chainspec.clone()),
            None => None,
        }
    }
}

/// What was stored is found again: a new block by its hash, and by its height unless another block
/// was there first.
pub proof fn law_block_found_again<B: Value + WithBlockHeight, D: Value>(m: StorageModel<B, D>, block: Rc<B>)
    ensures
        m.with_block(block).block(block.spec_id()) == Some(block),
        !m.heights.contains_key(block.spec_height()) ==> m.with_block(block).block_at(block.spec_height()) == Some(block),
{
}

/// A consistent storage is consistent with one more block.
proof fn lemma_block_keeps_consistency<B: Value + WithBlockHeight, D: Value>(m: StorageModel<B, D>, block: Rc<B>)
    requires
        m.consistent(),
    ensures
        m.with_block(block).consistent(),
{
    let after = m.with_block(block);
    assert forall|h: u64| #[trigger] after.heights.contains_key(h) implies after.blocks.contains_key(after.heights[h]) by {
        if m.heights.contains_key(h) {
            assert(m.blocks.contains_key(m.heights[h]));
        }
    }
}

/// Storing a block leaves all others where they are.
pub proof fn law_other_blocks_stay<B: Value + WithBlockHeight, D: Value>(m: StorageModel<B, D>, block: Rc<B>, other: B::Id, height: u64)
    requires
        m.consistent(),
        other != block.spec_id(),
    ensures
        m.with_block(block).block(other) == m.block(other),
        m.heights.contains_key(height) && m.heights[height] == other ==> m.with_block(block).block_at(height) == m.block(other),
        m.with_block(block).consistent(),
{
    lemma_block_keeps_consistency(m, block);
}

/// Storing results changes nothing but results.
proof fn lemma_results_only<B: Value + WithBlockHeight, D: Value>(
    m: StorageModel<B, D>,
    block_hash: B::Id,
    results: Seq<(D::Id, Rc<ExecutionResult>)>,
)
    ensures
        m.with_results(block_hash, results) == (StorageModel { results: m.with_results(block_hash, results).results, ..m }),
    decreases results.len(),
{
    if results.len() > 0 {
        lemma_results_only(m, block_hash, results.drop_last());
    }
}

/// An empty storage is consistent, and stays so whatever is stored: a block, a deploy, results of
/// executing deploys, or a chainspec.
pub proof fn law_stays_consistent<B: Value + WithBlockHeight, D: Value>(
    m: StorageModel<B, D>,
    block: Rc<B>,
    deploy: Rc<D>,
    block_hash: B::Id,
    results: Seq<(D::Id, Rc<ExecutionResult>)>,
    chainspecs: Map<crate::version::VersionModel, Rc<Chainspec>>,
)
    requires
        m.consistent(),
    ensures
        StorageModel::<B, D>::empty().consistent(),
        m.with_block(block).consistent(),
        m.with_deploy(deploy).consistent(),
        m.with_results(block_hash, results).consistent(),
        (StorageModel { chainspecs, ..m }).consistent(),
{
    lemma_block_keeps_consistency(m, block);
    lemma_results_only(m, block_hash, results);
}

/// Whatever event is handled, a storage that was consistent is so afterwards.
pub proof fn law_events_keep_consistency<B: Value + WithBlockHeight, D: Value, I>(
    m: StorageModel<B, D>,
    event: Event<B, D, I>,
    after: StorageModel<B, D>,
    effect: Effect<B, D, I>,
)
    requires
        m.consistent(),
        handled(m, event, after, effect),
    ensures
        after.consistent(),
{
    if let Event::Request(_, request) = event {
        match request {
            StorageRequest::PutBlock { block } => {
                lemma_block_keeps_consistency(m, block);
            },
            StorageRequest::PutExecutionResults { block_hash, execution_results } => {
                lemma_results_only(m, block_hash, execution_results@);
            },
            _ => {},
        }
    }
}

/// A deploy that was stored is found again, and stays when it is stored once more.
pub proof fn law_deploy_found_again<B: Value + WithBlockHeight, D: Value>(m: StorageModel<B, D>, deploy: Rc<D>, later: Rc<D>, other: D::Id)
    requires
        !m.deploys.contains_key(deploy.spec_id()),
        later.spec_id() == deploy.spec_id(),
        other != deploy.spec_id(),
    ensures
        m.with_deploy(deploy).deploy(deploy.spec_id()) == Some(deploy),
        m.with_deploy(deploy).with_deploy(later) == m.with_deploy(deploy),
        m.with_deploy(deploy).deploy(other) == m.deploy(other),
{
}

/// The first result of executing a deploy in a block is found again, and stays.
pub proof fn law_result_found_again<B: Value + WithBlockHeight, D: Value>(
    m: StorageModel<B, D>,
    id: D::Id,
    block_hash: B::Id,
    result: Rc<ExecutionResult>,
    later: Rc<ExecutionResult>,
)
    requires
        !m.results_of(id).contains_key(block_hash),
    ensures
        m.with_result(id, block_hash, result).results_of(id)[block_hash] == result,
        m.with_result(id, block_hash, result).with_result(id, block_hash, later) == m.with_result(id, block_hash, result),
{
}

/// What is loaded as pending is neither finalized nor expired.
pub proof fn law_loaded_pending_fresh(
    deploys: Seq<Rc<Deploy>>,
    finalized: Set<DeployHash>,
    current_instant: Timestamp,
    hash: DeployHash,
)
    requires
        pending_of(deploys, finalized, current_instant).contains_key(hash),
    ensures
        !finalized.contains(hash),
        !pending_of(deploys, finalized, current_instant)[hash].is_expired(current_instant),
{
    let n = before_expired(deploys, current_instant);
    lemma_before_expired(deploys, current_instant);
    lemma_unfinalized(deploys.take(n as int), finalized, current_instant, hash);
}

/// Before the first expired deploy none is expired.
proof fn lemma_before_expired(deploys: Seq<Rc<Deploy>>, current_instant: Timestamp)
    ensures
        before_expired(deploys, current_instant) <= deploys.len(),
        forall|i: int|
            0 <= i < before_expired(deploys, current_instant) ==> !(#[trigger] deploys[i]).header.is_expired(current_instant),
    decreases deploys.len(),
{
    if deploys.len() > 0 && !deploys[0].header.is_expired(current_instant) {
        lemma_before_expired(deploys.skip(1), current_instant);
        assert forall|i: int| 0 <= i < before_expired(deploys, current_instant) implies !(#[trigger] deploys[i]).header.is_expired(
            current_instant,
        ) by {
            if i > 0 {
                assert(deploys.skip(1)[i - 1] == deploys[i]);
            }
        }
    }
}

/// What is not finalized comes from one of the deploys.
proof fn lemma_unfinalized(deploys: Seq<Rc<Deploy>>, finalized: Set<DeployHash>, current_instant: Timestamp, hash: DeployHash)
    requires
        unfinalized(deploys, finalized).contains_key(hash),
        forall|i: int| 0 <= i < deploys.len() ==> !(#[trigger] deploys[i]).header.is_expired(current_instant),
    ensures
        !finalized.contains(hash),
        !unfinalized(deploys, finalized)[hash].is_expired(current_instant),
    decreases deploys.len(),
{
    let rest = deploys.drop_last();
    assert(deploys[deploys.len() - 1] == deploys.last());
    if unfinalized(rest, finalized).contains_key(hash) {
        lemma_unfinalized(rest, finalized, current_instant, hash);
    }
}

} // verus!
