//! Block proposer.
//!
//! The block proposer stores deploy hashes in memory, tracking their suitability for inclusion into
//! a new block. Upon request, it returns a list of candidates that can be included.

pub mod laws;

use crate::collections::{VecMap, VecSet};
use crate::deploy::{DeployConfig, DeployHeader};
use crate::hash::DeployHash;
use crate::text::append_decimal;
use crate::timestamp::{TimeDiff, Timestamp};
use crate::types::ProtoBlock;
use crate::version::{Version, VersionMap};
use std::rc::Rc;
use vstd::prelude::*;
use vstd::string::StringExecFns;

verus! {

/// The time between two prunings, in milliseconds.
pub const PRUNE_INTERVAL: u64 = 10_000;

/// The type of values expressing the block height in the chain.
pub type BlockHeight = u64;

/// A collection of deploy hashes with their corresponding deploy headers.
pub type DeployCollection = VecMap<DeployHash, Rc<DeployHeader>>;

/// A request for a list of deploys that can be included in a block.
pub struct ListForInclusionRequest {
    /// The timestamp of the block.
    pub current_instant: Timestamp,
    /// Deploys in earlier blocks that are not finalized yet.
    pub past_deploys: VecSet<DeployHash>,
    /// The height of the next block that has to be finalized.
    pub next_finalized: BlockHeight,
    /// Who is to be answered.
    pub responder: u64,
}

/// An event for when using the block proposer as a component.
pub enum Event {
    /// A list of deploys is wanted.
    Request(ListForInclusionRequest),
    /// A new deploy should be buffered.
    Buffer {
        hash: DeployHash,
        header: Rc<DeployHeader>,
    },
    /// The deploy-buffer has been asked to prune stale deploys
    BufferPrune,
    /// A proto block has been finalized. We should never propose its deploys again.
    FinalizedProtoBlock {
        block: ProtoBlock,
        height: BlockHeight,
    },
    /// The result of the `BlockProposer` getting the chainspec from the storage component.
    GetChainspecResult {
        maybe_deploy_config: Option<DeployConfig>,
        chainspec_version: Version,
        request: ListForInclusionRequest,
    },
}

impl Event {
    /// The text of an event that carries something with the text `subject`.
    pub open spec fn text(self, subject: Seq<char>) -> Seq<char> {
        match self {
            Event::BufferPrune => "buffer prune"@,
            Event::Request(_) => "deploy-buffer request: "@ + subject,
            Event::Buffer { .. } => "deploy-buffer add "@ + subject,
            Event::FinalizedProtoBlock { height, .. } => "deploy-buffer finalized proto block "@ + subject + " at height "@
                + crate::text::decimal(height as nat),
            Event::GetChainspecResult { maybe_deploy_config, .. } => if maybe_deploy_config is Some {
                "deploy-buffer got chainspec"@
            } else {
                "deploy-buffer failed to get chainspec"@
            },
        }
    }

    /// Returns the text of this event, given that of the request, hash or block that it carries.
    pub fn to_text(&self, subject: &str) -> (r: String)
        ensures
            r@ == self.text(subject@),
    {
        match self {
            Event::BufferPrune => String::from_str("buffer prune"),
            Event::Request(_) => String::from_str("deploy-buffer request: ").concat(subject),
            Event::Buffer { .. } => String::from_str("deploy-buffer add ").concat(subject),
            Event::FinalizedProtoBlock { height, .. } => {
                let mut text = String::from_str("deploy-buffer finalized proto block ").concat(subject).concat(
                    " at height ",
                );
                append_decimal(&mut text, *height);
                text
            },
            Event::GetChainspecResult { maybe_deploy_config, .. } => match maybe_deploy_config {
                Some(_) => String::from_str("deploy-buffer got chainspec"),
                None => String::from_str("deploy-buffer failed to get chainspec"),
            },
        }
    }
}

/// Something for the component's surroundings to do.
pub enum Effect {
    /// Report back with `BufferPrune` after the given time.
    SetTimeout(TimeDiff),
    /// Report back with a `GetChainspecResult` of what is given here.
    ChainspecCached {
        deploy_config: DeployConfig,
        chainspec_version: Version,
        request: ListForInclusionRequest,
    },
    /// Get the chainspec from storage and report back with a `GetChainspecResult`.
    GetChainspec {
        chainspec_version: Version,
        request: ListForInclusionRequest,
    },
    /// Answer a request.
    Respond {
        responder: u64,
        deploys: VecSet<DeployHash>,
    },
}

/// Stores the internal state of the BlockProposer.
pub struct BlockProposerState {
    /// The collection of deploys pending for inclusion in a block.
    pub pending: DeployCollection,
    /// The deploys that have already been included in a finalized block.
    pub finalized_deploys: DeployCollection,
    /// The next block height we expect to be finalized.
    /// If we receive a notification of finalization of a later block, we will store it in
    /// finalization_queue.
    /// If we receive a request that contains a later next_finalized, we will store it in
    /// request_queue.
    pub next_finalized: BlockHeight,
    /// The queue of finalized block contents awaiting inclusion in `self.finalized_deploys`: blocks
    /// that we know have been finalized, but we are still missing notifications about finalization
    /// of some of their ancestors. It maps block height to the deploys contained in the
    /// corresponding block.
    pub finalization_queue: VecMap<BlockHeight, Vec<DeployHash>>,
    /// The queue of requests awaiting being handled, because we aren't up to date on finalized
    /// blocks. The key is the height of the next block we will expect to be finalized at the point
    /// when we can fulfill the corresponding requests.
    pub request_queue: VecMap<BlockHeight, Vec<ListForInclusionRequest>>,
}

/// The state of a block proposer.
#[verifier::ext_equal]
pub ghost struct StateModel {
    pub pending: Seq<(DeployHash, Rc<DeployHeader>)>,
    pub finalized: Map<DeployHash, Rc<DeployHeader>>,
    pub next_finalized: BlockHeight,
    pub finalization_queue: Map<BlockHeight, Seq<DeployHash>>,
    pub request_queue: Map<BlockHeight, Seq<ListForInclusionRequest>>,
}

/// A block proposer: its state, and the rules for deploys that it remembers.
#[verifier::ext_equal]
pub ghost struct ProposerModel {
    pub state: StateModel,
    pub chainspecs: Map<crate::version::VersionModel, DeployConfig>,
}

/// All headers tell when their deploys expire.
pub open spec fn headers_ok(deploys: Map<DeployHash, Rc<DeployHeader>>) -> bool {
    forall|h: DeployHash| #[trigger] deploys.contains_key(h) ==> deploys[h].wf()
}

impl View for BlockProposerState {
    type V = StateModel;

    open spec fn view(&self) -> StateModel {
        StateModel {
            pending: self.pending.seq(),
            finalized: self.finalized_deploys@,
            next_finalized: self.next_finalized,
            finalization_queue: self.finalization_queue@.map_values(|v: Vec<DeployHash>| v@),
            request_queue: self.request_queue@.map_values(|v: Vec<ListForInclusionRequest>| v@),
        }
    }
}

/// Entries that are not expired yet.
pub open spec fn alive(current_instant: Timestamp) -> spec_fn(DeployHash, Rc<DeployHeader>) -> bool {
    |hash: DeployHash, header: Rc<DeployHeader>| !header.is_expired(current_instant)
}

/// Entries that are not in the list.
pub open spec fn not_among(deploys: Seq<DeployHash>) -> spec_fn(DeployHash, Rc<DeployHeader>) -> bool {
    |hash: DeployHash, header: Rc<DeployHeader>| !deploys.contains(hash)
}

impl StateModel {
    /// A state without queues.
    pub open spec fn of(pending: Seq<(DeployHash, Rc<DeployHeader>)>, finalized: Map<DeployHash, Rc<DeployHeader>>) -> StateModel {
        StateModel {
            pending,
            finalized,
            next_finalized: 0,
            finalization_queue: Map::empty(),
            request_queue: Map::empty(),
        }
    }

    /// The pending deploys by their hashes.
    pub open spec fn pending_map(self) -> Map<DeployHash, Rc<DeployHeader>> {
        crate::collections::entry_map(self.pending)
    }

    /// The deploy is in an earlier block.
    pub open spec fn resolved(self, dep: DeployHash, past_deploys: Set<DeployHash>) -> bool {
        past_deploys.contains(dep) || self.finalized.contains_key(dep)
    }

    /// The deploy can be part of the next block, as far as its header goes.
    pub open spec fn deploy_valid(
        self,
        deploy: DeployHeader,
        block_timestamp: Timestamp,
        deploy_config: DeployConfig,
        past_deploys: Set<DeployHash>,
    ) -> bool {
        &&& deploy.valid_at(deploy_config, block_timestamp)
        &&& forall|i: int|
            0 <= i < deploy.dependencies@.len() ==> self.resolved(#[trigger] deploy.dependencies@[i], past_deploys)
    }

    /// Deploys that can be part of the next block.
    pub open spec fn eligible(
        self,
        deploy_config: DeployConfig,
        block_timestamp: Timestamp,
        past_deploys: Set<DeployHash>,
    ) -> spec_fn(DeployHash, Rc<DeployHeader>) -> bool {
        |hash: DeployHash, header: Rc<DeployHeader>|
            self.deploy_valid(*header, block_timestamp, deploy_config, past_deploys) && !self.resolved(hash, past_deploys)
    }

    /// The first deploys that can be part of the next block, as many as it can have.
    pub open spec fn proposed(
        self,
        deploy_config: DeployConfig,
        block_timestamp: Timestamp,
        past_deploys: Set<DeployHash>,
    ) -> Seq<DeployHash> {
        let entries = self.pending.filter(
            crate::collections::on_entry(self.eligible(deploy_config, block_timestamp, past_deploys)),
        );
        let all = entries.map_values(|e: (DeployHash, Rc<DeployHeader>)| e.0);
        let max = deploy_config.block_max_deploy_count as int;
        all.take(
            if all.len() <= max {
                all.len() as int
            } else {
                max
            },
        )
    }

    /// The state without what has expired.
    pub open spec fn pruned(self, current_instant: Timestamp) -> StateModel {
        StateModel {
            pending: self.pending.filter(crate::collections::on_entry(alive(current_instant))),
            finalized: crate::collections::select(self.finalized, alive(current_instant)),
            ..self
        }
    }

    /// A deploy is accepted: it is not expired and not in a finalized block.
    pub open spec fn accepts(self, current_instant: Timestamp, hash: DeployHash, header: DeployHeader) -> bool {
        !header.is_expired(current_instant) && !self.finalized.contains_key(hash)
    }

    /// The state with one more pending deploy.
    pub open spec fn with_pending(self, hash: DeployHash, header: Rc<DeployHeader>) -> StateModel {
        StateModel {
            pending: if crate::collections::has_key(self.pending, hash) {
                self.pending.update(crate::collections::key_index(self.pending, hash), (hash, header))
            } else {
                self.pending.push((hash, header))
            },
            ..self
        }
    }

    /// The state after deploys were finalized: those that were pending have become finalized.
    pub open spec fn with_finalized(self, deploys: Seq<DeployHash>) -> StateModel {
        StateModel {
            pending: self.pending.filter(crate::collections::on_entry(not_among(deploys))),
            finalized: self.finalized.union_prefer_right(self.pending_map().restrict(deploys.to_set())),
            ..self
        }
    }

    /// The requests that can be answered once the block at the given height is expected next.
    pub open spec fn waiting(self, height: BlockHeight) -> Seq<ListForInclusionRequest> {
        if self.request_queue.contains_key(height) {
            self.request_queue[height]
        } else {
            Seq::empty()
        }
    }

    /// The state after the block at a height was finalized.
    pub open spec fn with_block(self, height: BlockHeight, deploys: Seq<DeployHash>) -> StateModel {
        let next_finalized = (height + 1) as u64;
        StateModel {
            next_finalized,
            request_queue: self.request_queue.remove(next_finalized),
            ..self.with_finalized(deploys)
        }
    }

    /// The state after the blocks above a height were finalized that were waiting for it.
    pub open spec fn caught_up(self, height: BlockHeight) -> StateModel
        decreases u64::MAX - height,
    {
        if height < u64::MAX && self.finalization_queue.contains_key((height + 1) as u64) {
            let next = (height + 1) as u64;
            self.without_queued(next).with_block(next, self.finalization_queue[next]).caught_up(next)
        } else {
            self
        }
    }

    /// The requests that can be answered after the blocks above a height were finalized that were
    /// waiting for it.
    pub open spec fn caught_up_requests(self, height: BlockHeight) -> Seq<ListForInclusionRequest>
        decreases u64::MAX - height,
    {
        if height < u64::MAX && self.finalization_queue.contains_key((height + 1) as u64) {
            let next = (height + 1) as u64;
            self.waiting((next + 1) as u64) + self.without_queued(next).with_block(
                next,
                self.finalization_queue[next],
            ).caught_up_requests(next)
        } else {
            Seq::empty()
        }
    }

    /// The state without a block in the finalization queue.
    pub open spec fn without_queued(self, height: BlockHeight) -> StateModel {
        StateModel { finalization_queue: self.finalization_queue.remove(height), ..self }
    }

    /// The state after the news that the block at a height was finalized.
    pub open spec fn notified(self, height: BlockHeight, deploys: Seq<DeployHash>) -> StateModel {
        if height > self.next_finalized {
            StateModel { finalization_queue: self.finalization_queue.insert(height, deploys), ..self }
        } else {
            self.with_block(height, deploys).caught_up(height)
        }
    }

    /// The requests that can be answered after the news that the block at a height was finalized.
    pub open spec fn notified_requests(self, height: BlockHeight, deploys: Seq<DeployHash>) -> Seq<ListForInclusionRequest> {
        if height > self.next_finalized {
            Seq::empty()
        } else {
            self.waiting((height + 1) as u64) + self.with_block(height, deploys).caught_up_requests(height)
        }
    }

    /// The state after a request came too early.
    pub open spec fn with_request(self, request: ListForInclusionRequest) -> StateModel {
        StateModel {
            request_queue: self.request_queue.insert(
                request.next_finalized,
                self.waiting(request.next_finalized).push(request),
            ),
            ..self
        }
    }
}

/// The version whose rules apply.
pub open spec fn current_version() -> Version {
    Version { major: 1, minor: 0, patch: 0, pre: None }
}

impl ProposerModel {
    /// The rules that a request needs are remembered or have to be fetched.
    pub open spec fn chainspec_effect(self, request: ListForInclusionRequest) -> Effect {
        if self.chainspecs.contains_key(current_version()@) {
            Effect::ChainspecCached {
                deploy_config: self.chainspecs[current_version()@],
                chainspec_version: current_version(),
                request,
            }
        } else {
            Effect::GetChainspec { chainspec_version: current_version(), request }
        }
    }

    /// The rules for all of the requests.
    pub open spec fn chainspec_effects(self, requests: Seq<ListForInclusionRequest>) -> Seq<Effect> {
        requests.map_values(|request: ListForInclusionRequest| self.chainspec_effect(request))
    }
}

impl BlockProposerState {
    /// The collections are well-formed, expiry times can be told, and there is a block height after
    /// each one that waits.
    pub open spec fn wf(&self) -> bool {
        &&& self.pending.wf()
        &&& self.finalized_deploys.wf()
        &&& self.finalization_queue.wf()
        &&& self.request_queue.wf()
        &&& headers_ok(self.pending@)
        &&& headers_ok(self.finalized_deploys@)
        &&& !self.finalization_queue@.contains_key(u64::MAX)
    }

    /// Creates a state with the given deploys.
    pub fn with_pending_and_finalized(pending: DeployCollection, finalized_deploys: DeployCollection) -> (r: BlockProposerState)
        requires
            pending.wf(),
            finalized_deploys.wf(),
            headers_ok(pending@),
            headers_ok(finalized_deploys@),
        ensures
            r.wf(),
            r@ == StateModel::of(pending.seq(), finalized_deploys@),
    {
        let r = BlockProposerState {
            pending,
            finalized_deploys,
            next_finalized: 0,
            finalization_queue: VecMap::new(),
            request_queue: VecMap::new(),
        };
        assert(r@ =~= StateModel::of(pending.seq(), finalized_deploys@));
        r
    }

    /// Returns a text with the numbers of pending and finalized deploys.
    pub fn to_text(&self) -> (r: String)
        requires
            self.wf(),
        ensures
            r@ == "(pending:"@ + crate::text::decimal(self@.pending.len()) + ", finalized:"@ + crate::text::decimal(
                self@.finalized.dom().len(),
            ) + ")"@,
    {
        let mut text = String::from_str("(pending:");
        append_decimal(&mut text, self.pending.len() as u64);
        text.append(", finalized:");
        append_decimal(&mut text, self.finalized_deploys.len() as u64);
        text.append(")");
        proof {
            crate::collections::lemma_entry_map_len(self.finalized_deploys.seq());
        }
        text
    }

    /// Prunes expired deploy information from the BlockProposerState, returns the total deploys
    /// pruned
    pub fn prune(&mut self, current_instant: Timestamp) -> (r: usize)
        requires
            old(self).wf(),
            old(self)@.pending.len() + old(self)@.finalized.dom().len() <= usize::MAX,
        ensures
            final(self).wf(),
            final(self)@ == old(self)@.pruned(current_instant),
            r == (old(self)@.pending.len() - final(self)@.pending.len()) + (old(self)@.finalized.dom().len()
                - final(self)@.finalized.dom().len()),
    {
        let (pending, finalized) = self.drop_expired(current_instant);
        pending + finalized
    }

    /// Drops expired deploys and returns how many pending and finalized ones there were.
    fn drop_expired(&mut self, current_instant: Timestamp) -> (r: (usize, usize))
        requires
            old(self).wf(),
        ensures
            final(self).wf(),
            final(self)@ == old(self)@.pruned(current_instant),
            r.0 == old(self)@.pending.len() - final(self)@.pending.len(),
            r.1 == old(self)@.finalized.dom().len() - final(self)@.finalized.dom().len(),
    {
        let pending = prune_deploys(&mut self.pending, current_instant);
        let finalized = prune_deploys(&mut self.finalized_deploys, current_instant);
        proof {
            crate::collections::lemma_entry_map_len(old(self).finalized_deploys.seq());
            crate::collections::lemma_entry_map_len(self.finalized_deploys.seq());
        }
        (pending, finalized)
    }
}

impl Default for BlockProposerState {
    fn default() -> (r: BlockProposerState)
        ensures
            r.wf(),
            r@ == StateModel::of(Seq::empty(), Map::empty()),
    {
        BlockProposerState::with_pending_and_finalized(VecMap::new(), VecMap::new())
    }
}

/// Prunes expired deploy information from an individual DeployCollection, returns the total
/// deploys pruned
pub fn prune_deploys(deploys: &mut DeployCollection, current_instant: Timestamp) -> (r: usize)
    requires
        old(deploys).wf(),
        headers_ok(old(deploys)@),
    ensures
        final(deploys).wf(),
        headers_ok(final(deploys)@),
        final(deploys).seq() == old(deploys).seq().filter(crate::collections::on_entry(alive(current_instant))),
        final(deploys)@ == crate::collections::select(old(deploys)@, alive(current_instant)),
        r == old(deploys).seq().len() - final(deploys).seq().len(),
{
    let initial_len = deploys.len();
    let ghost before = deploys.seq();
    let mut kept: DeployCollection = VecMap::new();
    let ghost q = crate::collections::on_entry(alive(current_instant));
    let mut i: usize = 0;
    assert(before.take(0).filter(q) =~= Seq::empty()) by {
        reveal(Seq::filter);
    }
    while i < deploys.len()
        invariant
            i <= deploys.seq().len(),
            deploys.wf(),
            deploys.seq() == before,
            headers_ok(deploys@),
            q == crate::collections::on_entry(alive(current_instant)),
            kept.wf(),
            kept.seq() == before.take(i as int).filter(q),
        decreases deploys.seq().len() - i,
    {
        let ghost e = before[i as int];
        proof {
            crate::collections::lemma_entry_map_at(before, i as int);
            before.take(i as int).lemma_filter_push(e, q);
            assert(before.take(i as int).push(e) =~= before.take(i + 1));
        }
        let hash = deploys.key_at(i);
        let header = deploys.value_at(i);
        if !header.expired(current_instant) {
            proof {
                if kept@.contains_key(hash) {
                    lemma_key_of_filtered(before.take(i as int), alive(current_instant), hash);
                    let j = crate::collections::key_index(before.take(i as int), hash);
                    assert(before.take(i as int)[j].0 == before[i as int].0);
                    assert(before[j].0 == before[i as int].0);
                }
            }
            let _ = kept.insert(hash, header.clone());
        }
        i += 1;
    }
    proof {
        assert(before.take(before.len() as int) =~= before);
        crate::collections::lemma_entry_map_filter(before, alive(current_instant));
        before.lemma_filter_len(q);
    }
    *deploys = kept;
    initial_len - deploys.len()
}

/// A key of filtered entries is a key of the entries.
proof fn lemma_key_of_filtered(s: Seq<(DeployHash, Rc<DeployHeader>)>, p: spec_fn(DeployHash, Rc<DeployHeader>) -> bool, k: DeployHash)
    requires
        crate::collections::has_key(s.filter(crate::collections::on_entry(p)), k),
    ensures
        crate::collections::has_key(s, k),
{
    let f = crate::collections::on_entry(p);
    let i = crate::collections::key_index(s.filter(f), k);
    let e = s.filter(f)[i];
    assert(s.filter(f).contains(e));
    s.lemma_filter_contains_rev(f, e);
    let j = s.index_of(e);
    assert(s[j].0 == k);
}

/// Block proposer.
pub struct BlockProposer {
    pub state: BlockProposerState,
    // We don't need the whole Chainspec here (it's also unnecessarily big), just the deploy
    // config.
    pub chainspecs: VersionMap<DeployConfig>,
}

impl View for BlockProposer {
    type V = ProposerModel;

    open spec fn view(&self) -> ProposerModel {
        ProposerModel { state: self.state@, chainspecs: self.chainspecs@ }
    }
}

/// Returns whether a hash is in the list.
fn contains(hashes: &Vec<DeployHash>, hash: &DeployHash) -> (r: bool)
    ensures
        r == hashes@.contains(*hash),
{
    let mut i: usize = 0;
    while i < hashes.len()
        invariant
            i <= hashes@.len(),
            forall|j: int| 0 <= j < i ==> hashes@[j] != *hash,
        decreases hashes@.len() - i,
    {
        if hashes[i] == *hash {
            assert(hashes@[i as int] == *hash);
            return true;
        }
        i += 1;
    }
    false
}

impl BlockProposer {
    /// The state is well-formed.
    pub open spec fn wf(&self) -> bool {
        self.state.wf() && self.chainspecs.wf()
    }

    /// Creates a new, block proposer instance with the provided internal state.
    pub fn new(state: BlockProposerState) -> (r: (BlockProposer, Vec<Effect>))
        requires
            state.wf(),
        ensures
            r.0.wf(),
            r.0@ == (ProposerModel { state: state@, chainspecs: Map::empty() }),
            r.1@ == seq![Effect::SetTimeout(TimeDiff(PRUNE_INTERVAL))],
    {
        let mut effects: Vec<Effect> = Vec::new();
        effects.push(Effect::SetTimeout(TimeDiff(PRUNE_INTERVAL)));
        assert(effects@ =~= seq![Effect::SetTimeout(TimeDiff(PRUNE_INTERVAL))]);
        (BlockProposer { state, chainspecs: VersionMap::new() }, effects)
    }

    /// Adds a deploy to the block proposer.
    ///
    /// Returns `false` if the deploy has been rejected.
    pub fn add_deploy(&mut self, current_instant: Timestamp, hash: DeployHash, header: Rc<DeployHeader>) -> (r: bool)
        requires
            old(self).wf(),
            header.wf(),
        ensures
            final(self).wf(),
            r == old(self)@.state.accepts(current_instant, hash, *header),
            final(self)@ == if r {
                ProposerModel { state: old(self)@.state.with_pending(hash, header), ..old(self)@ }
            } else {
                old(self)@
            },
    {
        if header.expired(current_instant) {
            return false;
        }
        // only add the deploy if it isn't contained in a finalized block
        if !self.state.finalized_deploys.contains_key(&hash) {
            let _ = self.state.pending.insert(hash, header);
            true
        } else {
            false
        }
    }

    /// Gets the chainspec from the cache or, if not cached, from the storage.
    fn get_chainspec(&self, request: ListForInclusionRequest) -> (r: Effect)
        requires
            self.wf(),
        ensures
            r == self@.chainspec_effect(request),
    {
        let chainspec_version = Version::new(1, 0, 0);
        match self.chainspecs.get(&chainspec_version) {
            Some(deploy_config) => Effect::ChainspecCached { deploy_config: *deploy_config, chainspec_version, request },
            None => Effect::GetChainspec { chainspec_version, request },
        }
    }

    /// Returns a list of candidates for inclusion into a block.
    pub fn propose_deploys(&self, deploy_config: DeployConfig, block_timestamp: Timestamp, past_deploys: &VecSet<DeployHash>) -> (r: VecSet<
        DeployHash,
    >)
        requires
            self.wf(),
            past_deploys.wf(),
        ensures
            r.wf(),
            r.seq() == self@.state.proposed(deploy_config, block_timestamp, past_deploys@),
            forall|hash: DeployHash, k: int|
                r@.contains(hash) && 0 <= k < self@.state.pending_map()[hash].dependencies@.len() ==> past_deploys@.contains(
                    #[trigger] self@.state.pending_map()[hash].dependencies@[k],
                ) || self@.state.finalized.contains_key(self@.state.pending_map()[hash].dependencies@[k]),
    {
        // deploys_to_return = all deploys in pending that aren't in finalized blocks or
        // proposed blocks from the set `past_blocks`
        let max = deploy_config.block_max_deploy_count as usize;
        let mut hashes: Vec<DeployHash> = Vec::new();
        let ghost m = self.state@;
        let ghost pending = m.pending;
        let ghost p = m.eligible(deploy_config, block_timestamp, past_deploys@);
        let ghost q = crate::collections::on_entry(p);
        let ghost key = |e: (DeployHash, Rc<DeployHeader>)| e.0;
        let mut i: usize = 0;
        assert(pending.take(0).filter(q) =~= Seq::empty()) by {
            reveal(Seq::filter);
        }
        while i < self.state.pending.len() && hashes.len() < max
            invariant
                i <= pending.len(),
                self.wf(),
                past_deploys.wf(),
                m == self.state@,
                pending == m.pending,
                p == m.eligible(deploy_config, block_timestamp, past_deploys@),
                q == crate::collections::on_entry(p),
                key == (|e: (DeployHash, Rc<DeployHeader>)| e.0),
                hashes@ == pending.take(i as int).filter(q).map_values(key),
                hashes@.len() <= max,
            decreases pending.len() - i,
        {
            let ghost e = pending[i as int];
            proof {
                crate::collections::lemma_entry_map_at(pending, i as int);
                pending.take(i as int).lemma_filter_push(e, q);
                assert(pending.take(i as int).push(e) =~= pending.take(i + 1));
            }
            let hash = self.state.pending.key_at(i);
            let header = self.state.pending.value_at(i);
            let ghost before = pending.take(i as int).filter(q);
            if self.is_deploy_valid(header, block_timestamp, &deploy_config, past_deploys)
                && !past_deploys.contains(&hash) && !self.state.finalized_deploys.contains_key(&hash) {
                hashes.push(hash);
                assert(hashes@ =~= before.push(e).map_values(key));
            }
            i += 1;
        }
        proof {
            let n = i as int;
            let all = pending.filter(q);
            assert(pending =~= pending.take(n) + pending.skip(n));
            Seq::filter_distributes_over_add(pending.take(n), pending.skip(n), q);
            let rest = pending.skip(n).filter(q);
            assert(all == pending.take(n).filter(q) + rest);
            if n == pending.len() {
                assert(pending.skip(n) =~= Seq::empty());
                reveal(Seq::filter);
                assert(rest =~= Seq::empty());
            }
            let goal = m.proposed(deploy_config, block_timestamp, past_deploys@);
            assert(goal =~= hashes@);
            crate::collections::lemma_entry_map_filter(pending, p);
            assert forall|a: int, b: int| 0 <= a < hashes@.len() && 0 <= b < hashes@.len() && a != b implies hashes@[a] != hashes@[b] by {
                assert(hashes@[a] == all[a].0);
                assert(hashes@[b] == all[b].0);
            }
        }
        let r = VecSet::from_vec(&hashes);
        proof {
            assert(r.seq() == hashes@);
            let by_hash = self@.state.pending_map();
            assert forall|hash: DeployHash, k: int| r@.contains(hash) && 0 <= k < by_hash[hash].dependencies@.len() implies past_deploys@.contains(
                #[trigger] by_hash[hash].dependencies@[k],
            ) || self@.state.finalized.contains_key(by_hash[hash].dependencies@[k]) by {
                let i = r.seq().index_of(hash);
                laws::law_proposed_keep_the_rules(self@.state, deploy_config, block_timestamp, past_deploys@, i);
                let j = choose|j: int|
                    {
                        &&& 0 <= j < pending.len()
                        &&& (#[trigger] pending[j]).0 == hash
                        &&& forall|d: int|
                            0 <= d < pending[j].1.dependencies@.len() ==> past_deploys@.contains(
                                #[trigger] pending[j].1.dependencies@[d],
                            ) || self@.state.finalized.contains_key(pending[j].1.dependencies@[d])
                    };
                crate::collections::lemma_entry_map_at(pending, j);
                assert(by_hash[hash] == pending[j].1);
            }
        }
        r
    }

    /// Checks if a deploy is valid (for inclusion into the next block).
    fn is_deploy_valid(
        &self,
        deploy: &DeployHeader,
        block_timestamp: Timestamp,
        deploy_config: &DeployConfig,
        past_deploys: &VecSet<DeployHash>,
    ) -> (r: bool)
        requires
            self.wf(),
            deploy.wf(),
            past_deploys.wf(),
        ensures
            r == self@.state.deploy_valid(*deploy, block_timestamp, *deploy_config, past_deploys@),
            r ==> forall|k: int|
                0 <= k < deploy.dependencies@.len() ==> past_deploys@.contains(#[trigger] deploy.dependencies@[k])
                    || self@.state.finalized.contains_key(deploy.dependencies@[k]),
    {
        if !deploy.is_valid(deploy_config, block_timestamp) {
            return false;
        }
        let mut i: usize = 0;
        while i < deploy.dependencies.len()
            invariant
                i <= deploy.dependencies@.len(),
                self.wf(),
                past_deploys.wf(),
                forall|j: int|
                    0 <= j < i ==> self@.state.resolved(#[trigger] deploy.dependencies@[j], past_deploys@),
            decreases deploy.dependencies@.len() - i,
        {
            let dep = deploy.dependencies[i];
            if !past_deploys.contains(&dep) && !self.state.finalized_deploys.contains_key(&dep) {
                assert(!self@.state.resolved(deploy.dependencies@[i as int], past_deploys@));
                return false;
            }
            i += 1;
        }
        assert forall|k: int| 0 <= k < deploy.dependencies@.len() implies past_deploys@.contains(#[trigger] deploy.dependencies@[k])
            || self@.state.finalized.contains_key(deploy.dependencies@[k]) by {
            assert(self@.state.resolved(deploy.dependencies@[k], past_deploys@));
        }
        true
    }

    /// Notifies the block proposer that a block has been finalized.
    pub fn finalized_deploys(&mut self, deploys: &Vec<DeployHash>)
        requires
            old(self).wf(),
        ensures
            final(self).wf(),
            final(self)@ == (ProposerModel { state: old(self)@.state.with_finalized(deploys@), ..old(self)@ }),
    {
        let ghost pre = self.state@;
        let ghost pending = pre.pending_map();
        let ghost goal = pre.finalized.union_prefer_right(pending.restrict(deploys@.to_set()));
        let mut i: usize = 0;
        assert(pre.finalized =~= pre.finalized.union_prefer_right(pending.restrict(deploys@.take(0).to_set())));
        while i < deploys.len()
            invariant
                i <= deploys@.len(),
                self.state.wf(),
                self.chainspecs == old(self).chainspecs,
                self.chainspecs.wf(),
                self.state@ == (StateModel { finalized: self.state@.finalized, ..pre }),
                pending == pre.pending_map(),
                self.state@.finalized == pre.finalized.union_prefer_right(
                    pending.restrict(deploys@.take(i as int).to_set()),
                ),
            decreases deploys@.len() - i,
        {
            let hash = deploys[i];
            let ghost done = deploys@.take(i as int);
            proof {
                assert(deploys@.take(i + 1) =~= done.push(hash));
                lemma_push_to_set(done, hash);
            }
            let ghost before = self.state@.finalized;
            match self.state.pending.get(&hash) {
                Some(header) => {
                    let header = header.clone();
                    let _ = self.state.finalized_deploys.insert(hash, header);
                },
                None => {},
            }
            assert(self.state@.finalized =~= pre.finalized.union_prefer_right(
                pending.restrict(deploys@.take(i + 1).to_set()),
            ));
            i += 1;
        }
        assert(deploys@.take(deploys@.len() as int) =~= deploys@);
        let test = |hash: &DeployHash, _header: &Rc<DeployHeader>| -> (b: bool)
            ensures
                b == !deploys@.contains(*hash),
            { !contains(deploys, hash) };
        self.state.pending.retain(test, Ghost(not_among(deploys@)));
        assert(self.state@ =~= pre.with_finalized(deploys@));
    }

    /// Handles finalization of a block.
    fn handle_finalized_block(&mut self, height: BlockHeight, deploys: &Vec<DeployHash>) -> (r: Vec<Effect>)
        requires
            old(self).wf(),
            height < u64::MAX,
        ensures
            final(self).wf(),
            final(self)@ == (ProposerModel { state: old(self)@.state.with_block(height, deploys@), ..old(self)@ }),
            r@ == old(self)@.chainspec_effects(old(self)@.state.waiting((height + 1) as u64)),
    {
        let ghost pre = self@;
        self.finalized_deploys(deploys);
        self.state.next_finalized = height + 1;
        let next = self.state.next_finalized;
        let requests = match self.state.request_queue.remove(&next) {
            Some(requests) => requests,
            None => Vec::new(),
        };
        proof {
            assert(self.state@.request_queue =~= pre.state.request_queue.remove(next));
            assert(self.state@ =~= pre.state.with_block(height, deploys@));
            assert(requests@ =~= pre.state.waiting(next));
        }
        let ghost all = requests@;
        let mut requests = requests;
        let mut effects: Vec<Effect> = Vec::new();
        while requests.len() > 0
            invariant
                self.wf(),
                self@.chainspecs == pre.chainspecs,
                effects@.len() + requests@.len() == all.len(),
                requests@ == all.skip(effects@.len() as int),
                effects@ == pre.chainspec_effects(all).take(effects@.len() as int),
            decreases requests@.len(),
        {
            let ghost n = effects@.len() as int;
            let request = requests.remove(0);
            let effect = self.get_chainspec(request);
            effects.push(effect);
            assert(requests@ =~= all.skip(n + 1));
            assert(effects@ =~= pre.chainspec_effects(all).take(n + 1));
        }
        assert(effects@ =~= pre.chainspec_effects(all));
        effects
    }

    /// Prunes expired deploy information from the BlockProposer, returns the total deploys pruned
    pub fn prune(&mut self, current_instant: Timestamp) -> (r: usize)
        requires
            old(self).wf(),
            old(self)@.state.pending.len() + old(self)@.state.finalized.dom().len() <= usize::MAX,
        ensures
            final(self).wf(),
            final(self)@ == (ProposerModel { state: old(self)@.state.pruned(current_instant), ..old(self)@ }),
            r == (old(self)@.state.pending.len() - final(self)@.state.pending.len()) + (
            old(self)@.state.finalized.dom().len() - final(self)@.state.finalized.dom().len()),
    {
        self.state.prune(current_instant)
    }

    /// Handles the news that the block at a height was finalized.
    fn handle_finalized_proto_block(&mut self, height: BlockHeight, deploys: Vec<DeployHash>) -> (r: Vec<Effect>)
        requires
            old(self).wf(),
            height < u64::MAX,
        ensures
            final(self).wf(),
            final(self)@ == (ProposerModel { state: old(self)@.state.notified(height, deploys@), ..old(self)@ }),
            r@ == old(self)@.chainspec_effects(old(self)@.state.notified_requests(height, deploys@)),
    {
        let ghost pre = self@;
        if height > self.state.next_finalized {
            let _ = self.state.finalization_queue.insert(height, deploys);
            assert(self.state@ =~= pre.state.notified(height, deploys@));
            let effects: Vec<Effect> = Vec::new();
            assert(effects@ =~= pre.chainspec_effects(Seq::empty()));
            return effects;
        }
        let mut height = height;
        let mut effects = self.handle_finalized_block(height, &deploys);
        let ghost first = pre.state.with_block(height, deploys@);
        let ghost start = height;
        let ghost mut done: Seq<ListForInclusionRequest> = pre.state.waiting((height + 1) as u64);
        loop
            invariant_except_break
                self.wf(),
                height < u64::MAX,
                self@.chainspecs == pre.chainspecs,
                self@.state.caught_up(height) == first.caught_up(start),
                done + self@.state.caught_up_requests(height) == pre.state.waiting((start + 1) as u64)
                    + first.caught_up_requests(start),
                effects@ == pre.chainspec_effects(done),
            ensures
                self.wf(),
                self@.chainspecs == pre.chainspecs,
                self@.state == first.caught_up(start),
                effects@ == pre.chainspec_effects(
                    pre.state.waiting((start + 1) as u64) + first.caught_up_requests(start),
                ),
            decreases u64::MAX - height,
        {
            let ghost now = self@.state;
            let next = height + 1;
            let queued = self.state.finalization_queue.remove(&next);
            proof {
                assert(self.state@ =~= now.without_queued(next));
                assert(self.wf());
            }
            match queued {
                Some(deploys) => {
                    height = next;
                    let ghost removed = self@;
                    proof {
                        assert(removed.state == now.without_queued(next));
                        assert(next < u64::MAX);
                    }
                    let mut more = self.handle_finalized_block(height, &deploys);
                    let ghost requests = now.waiting((next + 1) as u64);
                    proof {
                        assert(now.finalization_queue.contains_key(next));
                        assert(now.finalization_queue[next] == deploys@);
                        assert(self@.state == now.without_queued(next).with_block(next, deploys@));
                        assert(now.caught_up((next - 1) as u64) == self@.state.caught_up(next));
                        assert(now.caught_up_requests((next - 1) as u64) == requests + self@.state.caught_up_requests(next));
                        assert(more@ == pre.chainspec_effects(requests));
                        assert(done + (requests + self@.state.caught_up_requests(next)) =~= (done + requests)
                            + self@.state.caught_up_requests(next));
                        assert(pre.chainspec_effects(done + requests) =~= pre.chainspec_effects(done)
                            + pre.chainspec_effects(requests));
                        done = done + requests;
                    }
                    effects.append(&mut more);
                },
                None => {
                    proof {
                        assert(!now.finalization_queue.contains_key(next));
                        assert(now.without_queued(next) =~= now);
                        assert(done + Seq::<ListForInclusionRequest>::empty() =~= done);
                    }
                    break;
                },
            }
        }
        effects
    }
}

/// A sequence with one more element, as a set.
proof fn lemma_push_to_set(s: Seq<DeployHash>, x: DeployHash)
    ensures
        s.push(x).to_set() == s.to_set().insert(x),
{
    let t = s.push(x);
    assert forall|y: DeployHash| t.to_set().contains(y) == s.to_set().insert(x).contains(y) by {
        if t.contains(y) {
            let i = t.index_of(y);
            assert(t[i] == y);
            if i < s.len() {
                assert(s[i] == y);
            }
        }
        if s.contains(y) {
            let i = s.index_of(y);
            assert(t[i] == y);
        }
        assert(t[s.len() as int] == x);
    }
    assert(t.to_set() =~= s.to_set().insert(x));
}

impl ProposerModel {
    /// The event can be handled: there is a height after that of a block, an expiry time can be told,
    /// and the rules for deploys were found.
    pub open spec fn can_handle(self, event: Event) -> bool {
        match event {
            Event::Buffer { header, .. } => header.wf(),
            Event::FinalizedProtoBlock { height, .. } => height < u64::MAX,
            Event::GetChainspecResult { maybe_deploy_config, request, .. } => maybe_deploy_config is Some
                && request.past_deploys.wf(),
            _ => true,
        }
    }

    /// The block proposer after an event.
    pub open spec fn after_event(self, event: Event, now: Timestamp) -> ProposerModel {
        match event {
            Event::BufferPrune => ProposerModel { state: self.state.pruned(now), ..self },
            Event::Request(request) => if request.next_finalized > self.state.next_finalized {
                ProposerModel { state: self.state.with_request(request), ..self }
            } else {
                self
            },
            Event::Buffer { hash, header } => if self.state.accepts(now, hash, *header) {
                ProposerModel { state: self.state.with_pending(hash, header), ..self }
            } else {
                self
            },
            Event::FinalizedProtoBlock { block, height } => ProposerModel {
                state: self.state.notified(height, block.deploys@),
                ..self
            },
            Event::GetChainspecResult { maybe_deploy_config, chainspec_version, .. } => ProposerModel {
                chainspecs: self.chainspecs.insert(chainspec_version@, maybe_deploy_config->0),
                ..self
            },
        }
    }

    /// The effects are those of an event.
    pub open spec fn event_effects(self, event: Event, effects: Seq<Effect>) -> bool {
        match event {
            Event::BufferPrune => effects == seq![Effect::SetTimeout(TimeDiff(PRUNE_INTERVAL))],
            Event::Request(request) => effects == if request.next_finalized > self.state.next_finalized {
                Seq::empty()
            } else {
                seq![self.chainspec_effect(request)]
            },
            Event::Buffer { .. } => effects == Seq::<Effect>::empty(),
            Event::FinalizedProtoBlock { block, height } => effects == self.chainspec_effects(
                self.state.notified_requests(height, block.deploys@),
            ),
            Event::GetChainspecResult { maybe_deploy_config, request, .. } => {
                &&& effects.len() == 1
                &&& effects[0] matches Effect::Respond { responder, deploys }
                &&& responder == request.responder
                &&& deploys.wf()
                &&& deploys.seq() == self.state.proposed(
                    maybe_deploy_config->0,
                    request.current_instant,
                    request.past_deploys@,
                )
            },
        }
    }
}

impl BlockProposer {
    /// Handles an event at the given time.
    pub fn handle_event(&mut self, event: Event, now: Timestamp) -> (r: Vec<Effect>)
        requires
            old(self).wf(),
            old(self)@.can_handle(event),
        ensures
            final(self).wf(),
            final(self)@ == old(self)@.after_event(event, now),
            old(self)@.event_effects(event, r@),
    {
        let ghost pre = self@;
        let mut effects: Vec<Effect> = Vec::new();
        match event {
            Event::BufferPrune => {
                let _ = self.state.drop_expired(now);
                effects.push(Effect::SetTimeout(TimeDiff(PRUNE_INTERVAL)));
                assert(effects@ =~= seq![Effect::SetTimeout(TimeDiff(PRUNE_INTERVAL))]);
            },
            Event::Request(request) => {
                if request.next_finalized > self.state.next_finalized {
                    let height = request.next_finalized;
                    match self.state.request_queue.get_mut(&height) {
                        Some(requests) => {
                            requests.push(request);
                        },
                        None => {
                            let mut requests: Vec<ListForInclusionRequest> = Vec::new();
                            requests.push(request);
                            let _ = self.state.request_queue.insert(height, requests);
                        },
                    }
                    proof {
                        assert(self.state@.request_queue[height] =~= pre.state.waiting(height).push(request));
                        assert(self.state@.request_queue =~= pre.state.with_request(request).request_queue);
                        assert(self.state@ =~= pre.state.with_request(request));
                    }
                } else {
                    let effect = self.get_chainspec(request);
                    effects.push(effect);
                    assert(effects@ =~= seq![pre.chainspec_effect(request)]);
                }
            },
            Event::Buffer { hash, header } => {
                let _ = self.add_deploy(now, hash, header);
            },
            Event::FinalizedProtoBlock { block, height } => {
                return self.handle_finalized_proto_block(height, block.deploys);
            },
            Event::GetChainspecResult { maybe_deploy_config, chainspec_version, request } => {
                if let Some(deploy_config) = maybe_deploy_config {
                    // Update chainspec cache.
                    self.chainspecs.insert(chainspec_version, deploy_config);
                    let deploys = self.propose_deploys(deploy_config, request.current_instant, &request.past_deploys);
                    effects.push(Effect::Respond { responder: request.responder, deploys });
                }
            },
        }
        effects
    }
}

/// A deploy that is known to be in a finalized block is never proposed.
pub proof fn law_finalized_never_proposed(
    s: StateModel,
    deploy_config: DeployConfig,
    block_timestamp: Timestamp,
    past_deploys: Set<DeployHash>,
    hash: DeployHash,
)
    requires
        s.finalized.contains_key(hash),
    ensures
        !s.proposed(deploy_config, block_timestamp, past_deploys).contains(hash),
{
    let proposed = s.proposed(deploy_config, block_timestamp, past_deploys);
    if proposed.contains(hash) {
        let i = proposed.index_of(hash);
        assert(proposed[i] == hash);
        law_proposed_deploys_fit(s, deploy_config, block_timestamp, past_deploys, i);
    }
}

/// What is proposed is pending, keeps the rules at the time of the block, has all its dependencies in
/// earlier blocks and is in none of them itself; and there is no more of it than a block can have.
pub proof fn law_proposed_deploys_fit(
    s: StateModel,
    deploy_config: DeployConfig,
    block_timestamp: Timestamp,
    past_deploys: Set<DeployHash>,
    i: int,
)
    requires
        0 <= i < s.proposed(deploy_config, block_timestamp, past_deploys).len(),
    ensures
        s.proposed(deploy_config, block_timestamp, past_deploys).len() <= deploy_config.block_max_deploy_count,
        exists|j: int|
            {
                &&& 0 <= j < s.pending.len()
                &&& (#[trigger] s.pending[j]).0 == s.proposed(deploy_config, block_timestamp, past_deploys)[i]
                &&& s.deploy_valid(*s.pending[j].1, block_timestamp, deploy_config, past_deploys)
                &&& !s.resolved(s.pending[j].0, past_deploys)
            },
{
    broadcast use vstd::seq_lib::group_filter_ensures;

    let p = s.eligible(deploy_config, block_timestamp, past_deploys);
    let q = crate::collections::on_entry(p);
    let all = s.pending.filter(q);
    let e = all[i];
    assert(all.contains(e));
    assert(q(e));
    s.pending.lemma_filter_contains_rev(q, e);
    let j = s.pending.index_of(e);
    assert(s.pending[j] == e);
}

/// A pending deploy that fits is proposed, unless there are more such deploys than a block can have.
pub proof fn law_fitting_deploys_proposed(
    s: StateModel,
    deploy_config: DeployConfig,
    block_timestamp: Timestamp,
    past_deploys: Set<DeployHash>,
    j: int,
)
    requires
        0 <= j < s.pending.len(),
        s.deploy_valid(*s.pending[j].1, block_timestamp, deploy_config, past_deploys),
        !s.resolved(s.pending[j].0, past_deploys),
        s.proposed(deploy_config, block_timestamp, past_deploys).len() < deploy_config.block_max_deploy_count,
    ensures
        s.proposed(deploy_config, block_timestamp, past_deploys).contains(s.pending[j].0),
{
    broadcast use vstd::seq_lib::group_filter_ensures;

    let p = s.eligible(deploy_config, block_timestamp, past_deploys);
    let q = crate::collections::on_entry(p);
    let all = s.pending.filter(q);
    assert(q(s.pending[j]));
    assert(all.contains(s.pending[j]));
    let i = all.index_of(s.pending[j]);
    assert(s.proposed(deploy_config, block_timestamp, past_deploys)[i] == s.pending[j].0);
}

/// A pending deploy in a block that is finalized is not pending any more, but known as finalized.
pub proof fn law_pending_becomes_finalized(s: StateModel, deploys: Seq<DeployHash>, hash: DeployHash)
    requires
        crate::collections::keys_distinct(s.pending),
        crate::collections::has_key(s.pending, hash),
        deploys.contains(hash),
    ensures
        !crate::collections::has_key(s.with_finalized(deploys).pending, hash),
        s.with_finalized(deploys).finalized.contains_key(hash),
        s.with_finalized(deploys).finalized[hash] == s.pending_map()[hash],
{
    crate::collections::lemma_entry_map_filter(s.pending, not_among(deploys));
    let after = s.with_finalized(deploys).pending;
    if crate::collections::has_key(after, hash) {
        assert(crate::collections::entry_map(after).contains_key(hash));
    }
}

/// Blocks that wait for others do not undo anything when their turn comes.
proof fn lemma_caught_up_keeps(s: StateModel, height: BlockHeight, hash: DeployHash)
    requires
        s.finalized.contains_key(hash),
    ensures
        s.caught_up(height).finalized.contains_key(hash),
    decreases u64::MAX - height,
{
    if height < u64::MAX && s.finalization_queue.contains_key((height + 1) as u64) {
        let next = (height + 1) as u64;
        lemma_caught_up_keeps(s.without_queued(next).with_block(next, s.finalization_queue[next]), next, hash);
    }
}

/// What is known as finalized stays so, whatever happens, until it has expired and is pruned.
pub proof fn law_finalized_stays(m: ProposerModel, event: Event, now: Timestamp, hash: DeployHash)
    requires
        m.state.finalized.contains_key(hash),
        event is BufferPrune ==> !m.state.finalized[hash].is_expired(now),
    ensures
        m.after_event(event, now).state.finalized.contains_key(hash),
{
    match event {
        Event::FinalizedProtoBlock { block, height } => {
            let deploys = block.deploys@;
            if height <= m.state.next_finalized {
                lemma_caught_up_keeps(m.state.with_block(height, deploys), height, hash);
            }
        },
        _ => {},
    }
}

/// It does not matter in which order the news of two blocks in a row arrive: either way both are
/// handled, the first one first.
pub proof fn law_blocks_handled_in_order(s: StateModel, first: Seq<DeployHash>, second: Seq<DeployHash>)
    requires
        s.next_finalized < u64::MAX - 1,
        !s.finalization_queue.contains_key((s.next_finalized + 1) as u64),
    ensures
        ({
            let h = s.next_finalized;
            let next = (h + 1) as u64;
            s.notified(next, second).notified(h, first) == s.notified(h, first).notified(next, second)
        }),
        ({
            let h = s.next_finalized;
            let next = (h + 1) as u64;
            s.notified(next, second).notified_requests(h, first) == s.notified_requests(h, first) + s.notified(
                h,
                first,
            ).notified_requests(next, second)
        }),
{
    let h = s.next_finalized;
    let next = (h + 1) as u64;
    // Early news of the second block waits for the first one.
    let early = s.notified(next, second);
    let after_first = early.with_block(h, first);
    assert(after_first.finalization_queue.contains_key(next));
    assert(after_first.finalization_queue[next] == second);
    let a = after_first.without_queued(next).with_block(next, second);
    assert(after_first.caught_up(h) == a.caught_up(next));
    // In order, nothing waits.
    let plain = s.with_block(h, first);
    assert(plain.caught_up(h) == plain);
    assert(after_first.without_queued(next) =~= plain) by {
        assert(s.finalization_queue.insert(next, second).remove(next) =~= s.finalization_queue);
    }
    assert(s.notified(h, first) == plain);
    assert(plain.notified(next, second) == plain.with_block(next, second).caught_up(next));
    assert(plain.caught_up_requests(h) =~= Seq::empty());
    assert(s.waiting(next) + Seq::<ListForInclusionRequest>::empty() =~= s.waiting(next));
    assert(after_first.waiting((next + 1) as u64) == plain.waiting((next + 1) as u64));
}

} // verus!
