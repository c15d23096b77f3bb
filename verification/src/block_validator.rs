//! Block validator
//!
//! The block validator checks whether all the deploys included in the proto block exist, either
//! locally or on the network.
//!
//! When multiple requests are made to validate the same proto block, they will eagerly return true
//! if valid, but only fail if all sources have been exhausted. This is only relevant when calling
//! for validation of the same protoblock multiple times at the same time.

pub mod keyed_counter;
pub mod laws;

use crate::appendable_block::AppendableBlock;
use crate::block_validator::keyed_counter::KeyedCounter;
use crate::collections::{MapKey, VecSet};
use crate::deploy::{DeployConfig, DeployType};
use crate::hash::DeployHash;
use crate::linear_chain_sync::FetchResult;
use crate::ordered::OrderedMap;
use crate::timestamp::Timestamp;
use crate::types::{append_hashes, same_hashes, Block, ProtoBlock};
use smallvec::SmallVec;
use std::collections::VecDeque;
use std::rc::Rc;
use vstd::prelude::*;
use vstd::string::StringExecFns;

verus! {

/// Something that contains deploys and can be told apart from others of its kind.
pub trait BlockLike: View + Sized {
    /// The deploys of a block.
    spec fn deploys_of(block: Self::V) -> Seq<DeployHash>;

    /// Returns the deploys that the block contains.
    fn deploys(&self) -> (r: Vec<DeployHash>)
        ensures
            r@ == Self::deploys_of(self@),
    ;

    /// Returns whether two blocks are the same.
    fn same_block(&self, other: &Self) -> (r: bool)
        ensures
            r == (self@ == other@),
    ;
}

impl BlockLike for Block {
    open spec fn deploys_of(block: crate::types::BlockModel) -> Seq<DeployHash> {
        block.header.deploy_hashes + block.header.transfer_hashes
    }

    fn deploys(&self) -> (r: Vec<DeployHash>) {
        let mut r: Vec<DeployHash> = Vec::new();
        append_hashes(&mut r, &self.header.deploy_hashes);
        append_hashes(&mut r, &self.header.transfer_hashes);
        assert(r@ =~= self.header.deploy_hashes@ + self.header.transfer_hashes@);
        r
    }

    fn same_block(&self, other: &Block) -> (r: bool) {
        self.hash == other.hash && self.header.parent_hash == other.header.parent_hash
            && self.header.state_root_hash == other.header.state_root_hash && same_hashes(
            &self.header.deploy_hashes,
            &other.header.deploy_hashes,
        ) && same_hashes(&self.header.transfer_hashes, &other.header.transfer_hashes)
            && self.header.timestamp == other.header.timestamp && self.header.era_id
            == other.header.era_id && self.header.height == other.header.height
            && self.header.switch_block == other.header.switch_block
    }
}

impl BlockLike for ProtoBlock {
    open spec fn deploys_of(block: crate::types::ProtoBlockModel) -> Seq<DeployHash> {
        block.deploys + block.transfers
    }

    fn deploys(&self) -> (r: Vec<DeployHash>) {
        let mut r: Vec<DeployHash> = Vec::new();
        append_hashes(&mut r, &self.deploys);
        append_hashes(&mut r, &self.transfers);
        assert(r@ =~= self.deploys@ + self.transfers@);
        r
    }

    fn same_block(&self, other: &ProtoBlock) -> (r: bool) {
        self.hash == other.hash && same_hashes(&self.deploys, &other.deploys) && same_hashes(
            &self.transfers,
            &other.transfers,
        ) && self.random_bit == other.random_bit
    }
}

/// Those who wait for an answer, in a `smallvec::SmallVec`.
#[verifier::external_body]
pub struct Responders {
    list: SmallVec<[u64; 2]>,
}

/// The responders that a small vector holds, in order.
pub uninterp spec fn responder_list(responders: Responders) -> Seq<u64>;

/// Calls `SmallVec::new`, which makes an empty vector.
#[verifier::external_body]
fn no_responders() -> (r: Responders)
    ensures
        responder_list(r) == Seq::<u64>::empty(),
{
    Responders { list: SmallVec::new() }
}

/// Calls `SmallVec::push`, which appends an item.
#[verifier::external_body]
fn push_responder(responders: &mut Responders, responder: u64)
    ensures
        responder_list(*final(responders)) == responder_list(*old(responders)).push(responder),
{
    responders.list.push(responder);
}

/// Calls `SmallVec::drain` on the full range, which takes out all items and yields them in order.
#[verifier::external_body]
fn drain_responders(responders: &mut Responders) -> (r: Vec<u64>)
    ensures
        r@ == responder_list(*old(responders)),
        responder_list(*final(responders)) == Seq::<u64>::empty(),
{
    responders.list.drain(..).collect()
}

/// A request to validate a block.
pub struct BlockValidationRequest<T, I> {
    /// The block to be validated.
    pub block: Rc<T>,
    /// The sender of the block, which will be asked to provide all missing deploys.
    pub sender: I,
    /// The number of the one who waits for the answer.
    pub responder: u64,
    /// A check will be performed against the deploys to ensure their timestamp is older than or
    /// equal to the block's.
    pub block_timestamp: Timestamp,
}

/// Block validator component event.
pub enum Event<T, I> {
    /// A request made of the block validator component.
    Request(BlockValidationRequest<T, I>),
    /// A deploy has been successfully found.
    DeployFound {
        deploy_hash: DeployHash,
        deploy_type: DeployType,
    },
    /// A request to find a specific deploy, potentially from a peer, failed.
    DeployMissing(DeployHash),
    /// Deploy was invalid. Unable to convert to a deploy type.
    CannotConvertDeploy(DeployHash),
}

impl<T, I> Event<T, I> {
    /// The text of an event that carries something with the text `subject`.
    pub open spec fn text(self, subject: Seq<char>) -> Seq<char> {
        match self {
            Event::Request(_) => subject,
            Event::DeployFound { .. } => "deploy "@ + subject + " found"@,
            Event::DeployMissing(_) => "deploy "@ + subject + " missing"@,
            Event::CannotConvertDeploy(_) => "deploy "@ + subject + " invalid"@,
        }
    }

    /// Returns the text of this event, given that of the request or hash that it carries.
    pub fn to_text(&self, subject: &str) -> (r: String)
        ensures
            r@ == self.text(subject@),
    {
        match self {
            Event::Request(_) => String::from_str(subject),
            Event::DeployFound { .. } => String::from_str("deploy ").concat(subject).concat(" found"),
            Event::DeployMissing(_) => String::from_str("deploy ").concat(subject).concat(" missing"),
            Event::CannotConvertDeploy(_) => String::from_str("deploy ").concat(subject).concat(" invalid"),
        }
    }
}

/// The event that follows from fetching a deploy.
pub open spec fn event_for_fetched<T, I>(deploy_hash: DeployHash, result: Option<FetchResult<Option<DeployType>, I>>) -> Event<T, I> {
    match result {
        Some(FetchResult::FromStorage(Some(deploy_type))) => Event::DeployFound { deploy_hash, deploy_type },
        Some(FetchResult::FromPeer(Some(deploy_type), _)) => Event::DeployFound { deploy_hash, deploy_type },
        Some(_) => Event::CannotConvertDeploy(deploy_hash),
        None => Event::DeployMissing(deploy_hash),
    }
}

/// Returns the event that follows from fetching a deploy. If the deploy was found, `result` holds its
/// type, or `None` if it could not be converted to one.
pub fn fetched_deploy<T, I>(deploy_hash: DeployHash, result: Option<FetchResult<Option<DeployType>, I>>) -> (r: Event<T, I>)
    ensures
        r == event_for_fetched::<T, I>(deploy_hash, result),
{
    let found = match result {
        Some(FetchResult::FromStorage(deploy_type)) => deploy_type,
        Some(FetchResult::FromPeer(deploy_type, _)) => deploy_type,
        None => {
            return Event::DeployMissing(deploy_hash);
        },
    };
    match found {
        Some(deploy_type) => Event::DeployFound { deploy_hash, deploy_type },
        None => Event::CannotConvertDeploy(deploy_hash),
    }
}

/// Something for the component's surroundings to do.
pub enum Effect<T, I> {
    /// Answer a request.
    Respond {
        responder: u64,
        valid: bool,
        block: Rc<T>,
    },
    /// Fetch a deploy from storage or from the given peer, and report back.
    FetchDeploy {
        deploy_hash: DeployHash,
        sender: I,
    },
    /// Report that a peer sent a block that contains deploys more than once.
    ReportReplay {
        sender: I,
        duplicates: OrderedMap<DeployHash, usize>,
    },
}

/// Something to do, with the block as its model.
pub ghost enum EffectModel<K, I> {
    Respond { responder: u64, valid: bool, block: K },
    FetchDeploy { deploy_hash: DeployHash, sender: I },
    ReportReplay { sender: I, duplicates: Seq<(DeployHash, usize)> },
}

impl<T: View, I> View for Effect<T, I> {
    type V = EffectModel<T::V, I>;

    open spec fn view(&self) -> EffectModel<T::V, I> {
        match *self {
            Effect::Respond { responder, valid, block } => EffectModel::Respond { responder, valid, block: block@ },
            Effect::FetchDeploy { deploy_hash, sender } => EffectModel::FetchDeploy { deploy_hash, sender },
            Effect::ReportReplay { sender, duplicates } => EffectModel::ReportReplay {
                sender,
                duplicates: duplicates@,
            },
        }
    }
}

/// The models of a list of things to do.
pub open spec fn effects_view<T: View, I>(effects: Seq<Effect<T, I>>) -> Seq<EffectModel<T::V, I>> {
    effects.map_values(|e: Effect<T, I>| e@)
}

/// State of the current process of block validation.
///
/// Tracks whether or not there are deploys still missing and who is interested in the final result.
pub struct BlockValidationState<I> {
    /// Appendable block ensuring that the deploys satisfy the validity conditions.
    appendable_block: AppendableBlock,
    /// The deploys that have not yet been "crossed off" the list of potential misses.
    missing_deploys: VecSet<DeployHash>,
    /// A list of responders that are awaiting an answer.
    responders: Responders,
    /// Peers that should have the data.
    sources: VecDeque<I>,
}

/// State of the current process of block validation.
#[verifier::ext_equal]
pub ghost struct StateModel<I> {
    pub appendable: crate::appendable_block::AppendableModel,
    pub missing: Set<DeployHash>,
    pub responders: Seq<u64>,
    pub sources: Seq<I>,
}

impl<I> View for BlockValidationState<I> {
    type V = StateModel<I>;

    closed spec fn view(&self) -> StateModel<I> {
        StateModel {
            appendable: self.appendable_block@,
            missing: self.missing_deploys@,
            responders: responder_list(self.responders),
            sources: self.sources@,
        }
    }
}

impl<I: MapKey> BlockValidationState<I> {
    /// Nothing is noted as missing twice.
    pub closed spec fn wf(&self) -> bool {
        self.missing_deploys.wf()
    }

    /// Adds alternative source of data.
    /// Returns true if we already know about the peer.
    pub fn add_source(&mut self, peer: I) -> (r: bool)
        requires
            old(self).wf(),
        ensures
            final(self).wf(),
            r == old(self)@.sources.contains(peer),
            final(self)@ == old(self)@.with_source(peer),
    {
        let mut i: usize = 0;
        while i < self.sources.len()
            invariant
                i <= self.sources@.len(),
                *self == *old(self),
                old(self).wf(),
                forall|j: int| 0 <= j < i ==> self.sources@[j] != peer,
            decreases self.sources@.len() - i,
        {
            if self.sources[i].same(&peer) {
                assert(self.sources@[i as int] == peer);
                return true;
            }
            i += 1;
        }
        self.sources.push_back(peer);
        assert(self@ =~= old(self)@.with_source(peer));
        false
    }

    /// Returns a peer, if there is any, that we haven't yet tried.
    pub fn source(&mut self) -> (r: Option<I>)
        requires
            old(self).wf(),
        ensures
            final(self).wf(),
            match r {
                Some(peer) => old(self)@.sources.len() > 0 && peer == old(self)@.sources[0] && final(self)@ == (StateModel {
                    sources: old(self)@.sources.skip(1),
                    ..old(self)@
                }),
                None => old(self)@.sources.len() == 0 && final(self)@ == old(self)@,
            },
    {
        let r = self.sources.pop_front();
        proof {
            if r is Some {
                assert(self.sources@ =~= old(self).sources@.skip(1));
            }
        }
        r
    }
}

impl<I> StateModel<I> {
    /// The state with one more source, unless it is known already.
    pub open spec fn with_source(self, peer: I) -> StateModel<I> {
        if self.sources.contains(peer) {
            self
        } else {
            StateModel { sources: self.sources.push(peer), ..self }
        }
    }

    /// The state after a deploy was found.
    pub open spec fn crossed_off(self, hash: DeployHash, deploy: DeployType) -> StateModel<I> {
        if self.missing.contains(hash) {
            StateModel {
                missing: self.missing.remove(hash),
                appendable: self.appendable.with_deploy(hash, deploy),
                ..self
            }
        } else {
            self
        }
    }

    /// The deploy that was found cannot be part of the block.
    pub open spec fn spoilt_by(self, hash: DeployHash, deploy: DeployType) -> bool {
        self.missing.contains(hash) && self.appendable.add_error(hash, deploy) is Some
    }
}

/// The block validator.
pub struct BlockValidator<T, I> {
    /// The rules that blocks have to keep.
    deploy_config: DeployConfig,
    /// State of validation of a specific block.
    validation_states: Vec<(Rc<T>, BlockValidationState<I>)>,
    /// Number of requests for a specific deploy hash still in flight.
    in_flight: KeyedCounter<DeployHash>,
}

/// The block validator: the states of validation in the order of the first requests, and the
/// number of requests in flight for each deploy.
#[verifier::ext_equal]
pub ghost struct ValidatorModel<K, I> {
    pub deploy_config: DeployConfig,
    pub states: Seq<(K, StateModel<I>)>,
    pub in_flight: Map<DeployHash, usize>,
}

/// The model of a block with its state of validation.
pub open spec fn entry_view<T: View, I>(e: (Rc<T>, BlockValidationState<I>)) -> (T::V, StateModel<I>) {
    (e.0@, e.1@)
}

/// The models of the states of validation.
pub open spec fn states_view<T: View, I>(states: Seq<(Rc<T>, BlockValidationState<I>)>) -> Seq<(T::V, StateModel<I>)> {
    states.map_values(|e: (Rc<T>, BlockValidationState<I>)| entry_view(e))
}

impl<T: View, I> View for BlockValidator<T, I> {
    type V = ValidatorModel<T::V, I>;

    closed spec fn view(&self) -> ValidatorModel<T::V, I> {
        ValidatorModel {
            deploy_config: self.deploy_config,
            states: states_view(self.validation_states@),
            in_flight: self.in_flight@,
        }
    }
}

/// Everyone is given the same answer.
pub open spec fn answers<K, I>(responders: Seq<u64>, valid: bool, block: K) -> Seq<EffectModel<K, I>> {
    responders.map_values(|responder: u64| EffectModel::Respond { responder, valid, block })
}

/// Each deploy is fetched from the same peer.
pub open spec fn fetches<K, I>(deploys: Seq<DeployHash>, sender: I) -> Seq<EffectModel<K, I>> {
    deploys.map_values(|deploy_hash: DeployHash| EffectModel::FetchDeploy { deploy_hash, sender })
}

/// The counts with those of all of `keys` increased.
pub open spec fn all_increased(counts: Map<DeployHash, usize>, keys: Seq<DeployHash>) -> Map<DeployHash, usize>
    decreases keys.len(),
{
    if keys.len() == 0 {
        counts
    } else {
        let before = all_increased(counts, keys.drop_last());
        keyed_counter::with_count(before, keys.last(), keyed_counter::count_of(before, keys.last()) + 1)
    }
}

/// The number of times that `hash` occurs.
pub open spec fn occurrences(deploys: Seq<DeployHash>, hash: DeployHash) -> int
    decreases deploys.len(),
{
    if deploys.len() == 0 {
        0
    } else {
        occurrences(deploys.drop_last(), hash) + (if deploys.last() == hash {
            1int
        } else {
            0
        })
    }
}

/// `duplicates` tells, in order, which deploys occur more than once and how often.
pub open spec fn tells_replays(deploys: Seq<DeployHash>, duplicates: Seq<(DeployHash, usize)>) -> bool {
    &&& crate::ordered::keys_increase(duplicates)
    &&& forall|h: DeployHash| #[trigger] crate::ordered::value_of(duplicates, h) == if occurrences(deploys, h) > 1 {
            Some(occurrences(deploys, h) as usize)
        } else {
            None
        }
}

/// What is done with each state of validation, one after the other: `step` tells what becomes of a
/// state, if it stays, and what has to be done.
pub open spec fn sweep<K, I>(
    states: Seq<(K, StateModel<I>)>,
    step: spec_fn(K, StateModel<I>) -> (Option<StateModel<I>>, Seq<EffectModel<K, I>>),
) -> (Seq<(K, StateModel<I>)>, Seq<EffectModel<K, I>>)
    decreases states.len(),
{
    if states.len() == 0 {
        (Seq::empty(), Seq::empty())
    } else {
        let (kept, effects) = sweep(states.drop_last(), step);
        let (key, state) = states.last();
        let (outcome, more) = step(key, state);
        (match outcome {
            Some(s) => kept.push((key, s)),
            None => kept,
        }, effects + more)
    }
}

/// A found deploy is crossed off. A block that cannot contain it is invalid, one that misses
/// nothing more is valid, and either way everyone waiting gets the answer.
pub open spec fn found_step<K, I>(hash: DeployHash, deploy: DeployType) -> spec_fn(K, StateModel<I>) -> (
    Option<StateModel<I>>,
    Seq<EffectModel<K, I>>,
) {
    |key: K, state: StateModel<I>|
        if state.spoilt_by(hash, deploy) {
            (None, answers(state.responders, false, key))
        } else if state.crossed_off(hash, deploy).missing == Set::<DeployHash>::empty() {
            (None, answers(state.responders, true, key))
        } else {
            (Some(state.crossed_off(hash, deploy)), Seq::empty())
        }
}

/// A block that contains a deploy of no known type is invalid.
pub open spec fn cannot_convert_step<K, I>(hash: DeployHash) -> spec_fn(K, StateModel<I>) -> (
    Option<StateModel<I>>,
    Seq<EffectModel<K, I>>,
) {
    |key: K, state: StateModel<I>|
        if state.missing.contains(hash) {
            (None, answers(state.responders, false, key))
        } else {
            (Some(state), Seq::empty())
        }
}

/// What is done when the last request for a deploy failed: blocks that miss it and have no other
/// source are invalid, up to the first one with another source, which is asked.
pub open spec fn missing_sweep<K, I>(states: Seq<(K, StateModel<I>)>, hash: DeployHash) -> (
    Seq<(K, StateModel<I>)>,
    Seq<EffectModel<K, I>>,
    bool,
)
    decreases states.len(),
{
    if states.len() == 0 {
        (Seq::empty(), Seq::empty(), false)
    } else {
        let (kept, effects, retried) = missing_sweep(states.drop_last(), hash);
        let (key, state) = states.last();
        if !state.missing.contains(hash) || retried {
            (kept.push((key, state)), effects, retried)
        } else if state.sources.len() > 0 {
            (
                kept.push((key, StateModel { sources: state.sources.skip(1), ..state })),
                effects.push(EffectModel::FetchDeploy { deploy_hash: hash, sender: state.sources[0] }),
                true,
            )
        } else {
            (kept, effects + answers(state.responders, false, key), false)
        }
    }
}

/// The block is being validated.
pub open spec fn has_block<K, I>(states: Seq<(K, StateModel<I>)>, block: K) -> bool {
    exists|i: int| 0 <= i < states.len() && (#[trigger] states[i]).0 == block
}

/// A request leads from `pre` to `post` and causes `effects`.
pub open spec fn requested<T: BlockLike, I>(
    pre: ValidatorModel<T::V, I>,
    request: BlockValidationRequest<T, I>,
    post: ValidatorModel<T::V, I>,
    effects: Seq<EffectModel<T::V, I>>,
) -> bool {
    let block = request.block@;
    let deploys = T::deploys_of(block);
    let answer = |valid: bool| EffectModel::<T::V, I>::Respond { responder: request.responder, valid, block };
    if !deploys.no_duplicates() {
        &&& post == pre
        &&& exists|duplicates: Seq<(DeployHash, usize)>|
            #[trigger] tells_replays(deploys, duplicates) && effects == seq![
                EffectModel::<T::V, I>::ReportReplay { sender: request.sender, duplicates },
                answer(false),
            ]
    } else if deploys.len() == 0 {
        post == pre && effects == seq![answer(true)]
    } else if has_block(pre.states, block) {
        exists|i: int|
            {
                &&& 0 <= i < pre.states.len()
                &&& (#[trigger] pre.states[i]).0 == block
                &&& if pre.states[i].1.missing == Set::<DeployHash>::empty() {
                    post == pre && effects == seq![answer(true)]
                } else {
                    let state = pre.states[i].1;
                    let waiting = StateModel { responders: state.responders.push(request.responder), ..state };
                    &&& post == (ValidatorModel {
                        states: pre.states.update(i, (block, waiting.with_source(request.sender))),
                        ..pre
                    })
                    &&& effects == Seq::<EffectModel<T::V, I>>::empty()
                }
            }
    } else {
        &&& post == (ValidatorModel {
            states: pre.states.push(
                (
                    block,
                    StateModel {
                        appendable: crate::appendable_block::AppendableModel::empty(
                            pre.deploy_config,
                            request.block_timestamp,
                        ),
                        missing: deploys.to_set(),
                        responders: seq![request.responder],
                        sources: Seq::empty(),
                    },
                ),
            ),
            in_flight: all_increased(pre.in_flight, deploys),
            ..pre
        })
        &&& effects == fetches::<T::V, I>(deploys, request.sender)
    }
}

/// The requests in flight after one more answer for `hash`.
pub open spec fn one_less(in_flight: Map<DeployHash, usize>, hash: DeployHash) -> Map<DeployHash, usize> {
    keyed_counter::with_count(in_flight, hash, keyed_counter::count_of(in_flight, hash) - 1)
}

/// The event leads from `pre` to `post` and causes `effects`.
pub open spec fn handled<T: BlockLike, I>(
    pre: ValidatorModel<T::V, I>,
    event: Event<T, I>,
    post: ValidatorModel<T::V, I>,
    effects: Seq<EffectModel<T::V, I>>,
) -> bool {
    match event {
        Event::Request(request) => requested(pre, request, post, effects),
        Event::DeployFound { deploy_hash, deploy_type } => {
            let swept = sweep(pre.states, found_step::<T::V, I>(deploy_hash, deploy_type));
            &&& post == (ValidatorModel {
                states: swept.0,
                in_flight: one_less(pre.in_flight, deploy_hash),
                ..pre
            })
            &&& effects == swept.1
        },
        Event::DeployMissing(deploy_hash) => {
            if keyed_counter::count_of(pre.in_flight, deploy_hash) > 1 {
                &&& post == (ValidatorModel { in_flight: one_less(pre.in_flight, deploy_hash), ..pre })
                &&& effects == Seq::<EffectModel<T::V, I>>::empty()
            } else {
                let swept = missing_sweep(pre.states, deploy_hash);
                &&& post == (ValidatorModel {
                    states: swept.0,
                    in_flight: if swept.2 {
                        pre.in_flight
                    } else {
                        one_less(pre.in_flight, deploy_hash)
                    },
                    ..pre
                })
                &&& effects == swept.1
            }
        },
        Event::CannotConvertDeploy(deploy_hash) => {
            let swept = sweep(pre.states, cannot_convert_step::<T::V, I>(deploy_hash));
            &&& post == (ValidatorModel {
                states: swept.0,
                in_flight: one_less(pre.in_flight, deploy_hash),
                ..pre
            })
            &&& effects == swept.1
        },
    }
}

/// The counts of all of `keys` can be increased.
pub open spec fn none_full(counts: Map<DeployHash, usize>, keys: Seq<DeployHash>) -> bool {
    forall|i: int| 0 <= i < keys.len() ==> keyed_counter::count_of(counts, #[trigger] keys[i]) < usize::MAX
}

/// The event can be handled: an answer was asked for, the deploy found can be dated, and the
/// requests in flight can be counted.
pub open spec fn can_handle<T: BlockLike, I>(pre: ValidatorModel<T::V, I>, event: Event<T, I>) -> bool {
    match event {
        Event::Request(request) => none_full(pre.in_flight, T::deploys_of(request.block@)),
        Event::DeployFound { deploy_hash, deploy_type } => deploy_type.spec_header().wf()
            && keyed_counter::count_of(pre.in_flight, deploy_hash) > 0,
        Event::DeployMissing(deploy_hash) => keyed_counter::count_of(pre.in_flight, deploy_hash) > 0,
        Event::CannotConvertDeploy(deploy_hash) => keyed_counter::count_of(pre.in_flight, deploy_hash) > 0,
    }
}

/// Adding something to do adds its model.
proof fn lemma_effects_push<T: View, I>(effects: Seq<Effect<T, I>>, e: Effect<T, I>)
    ensures
        effects_view(effects.push(e)) == effects_view(effects).push(e@),
{
    assert(effects_view(effects.push(e)) =~= effects_view(effects).push(e@));
}

/// Gives everyone who waits for a block the same answer.
fn respond_all<T: View, I: MapKey>(
    effects: &mut Vec<Effect<T, I>>,
    state: &mut BlockValidationState<I>,
    valid: bool,
    block: &Rc<T>,
)
    requires
        old(state).wf(),
    ensures
        final(state).wf(),
        effects_view(final(effects)@) == effects_view(old(effects)@) + answers(old(state)@.responders, valid, block@),
{
    let responders = drain_responders(&mut state.responders);
    let ghost start = effects_view(effects@);
    let ghost all = answers::<T::V, I>(responders@, valid, block@);
    let mut i: usize = 0;
    assert(effects_view(effects@) =~= start + all.take(0));
    while i < responders.len()
        invariant
            i <= responders@.len(),
            all == answers::<T::V, I>(responders@, valid, block@),
            effects_view(effects@) == start + all.take(i as int),
        decreases responders@.len() - i,
    {
        let responder = responders[i];
        let ghost before = effects@;
        let effect = Effect::Respond { responder, valid, block: block.clone() };
        proof {
            lemma_effects_push(before, effect);
            assert(effect@ == all[i as int]);
        }
        effects.push(effect);
        assert(effects_view(effects@) =~= start + all.take(i + 1));
        i += 1;
    }
    assert(all.take(responders@.len() as int) =~= all);
}

/// Returns which deploys occur more than once and how often.
pub fn replayed_deploys(deploys: &Vec<DeployHash>) -> (r: OrderedMap<DeployHash, usize>)
    ensures
        r.wf(),
        tells_replays(deploys@, r@),
{
    let mut deploy_counts: OrderedMap<DeployHash, usize> = OrderedMap::new();
    let mut i: usize = 0;
    assert(deploys@.take(0) =~= Seq::empty());
    while i < deploys.len()
        invariant
            i <= deploys@.len(),
            deploy_counts.wf(),
            forall|h: DeployHash| #[trigger] crate::ordered::value_of(deploy_counts@, h) == if occurrences(deploys@.take(i as int), h) > 0 {
                Some(occurrences(deploys@.take(i as int), h) as usize)
            } else {
                None
            },
            forall|h: DeployHash| 0 <= #[trigger] occurrences(deploys@.take(i as int), h) <= i,
        decreases deploys@.len() - i,
    {
        let hash = deploys[i];
        let ghost before = deploy_counts@;
        let ghost next = deploys@.take(i + 1);
        let count = match deploy_counts.get(&hash) {
            Some(count) => *count,
            None => 0,
        };
        proof {
            assert(next.drop_last() =~= deploys@.take(i as int));
            assert(next.last() == hash);
            assert(count == occurrences(deploys@.take(i as int), hash)) by {
                assert(crate::ordered::value_of(before, hash) == if occurrences(deploys@.take(i as int), hash) > 0 {
                    Some(occurrences(deploys@.take(i as int), hash) as usize)
                } else {
                    None
                });
            }
            crate::ordered::lemma_with_entry(before, hash, (count + 1) as usize);
        }
        let _ = deploy_counts.insert(hash, count + 1);
        proof {
            assert forall|h: DeployHash| #[trigger] crate::ordered::value_of(deploy_counts@, h) == if occurrences(next, h) > 0 {
                Some(occurrences(next, h) as usize)
            } else {
                None
            } by {
                if h != hash {
                    assert(crate::ordered::value_of(deploy_counts@, h) == crate::ordered::value_of(before, h));
                }
            }
            assert forall|h: DeployHash| 0 <= #[trigger] occurrences(next, h) <= i + 1 by {
                assert(0 <= occurrences(deploys@.take(i as int), h) <= i);
            }
        }
        i += 1;
    }
    assert(deploys@.take(deploys@.len() as int) =~= deploys@);
    let mut duplicates: OrderedMap<DeployHash, usize> = OrderedMap::new();
    let ghost counts = deploy_counts@;
    let mut j: usize = 0;
    proof {
        assert forall|h: DeployHash| crate::ordered::rank(counts, h) >= 0 by {
            crate::ordered::lemma_rank(counts, h);
        }
    }
    while j < deploy_counts.len()
        invariant
            j <= counts.len(),
            counts == deploy_counts@,
            deploy_counts.wf(),
            duplicates.wf(),
            forall|h: DeployHash| #[trigger] crate::ordered::value_of(duplicates@, h) == match crate::ordered::value_of(counts, h) {
                Some(c) => if c > 1 && crate::ordered::rank(counts, h) < j {
                    Some(c)
                } else {
                    None
                },
                None => None,
            },
        decreases counts.len() - j,
    {
        let hash = deploy_counts.key_at(j);
        let count = *deploy_counts.value_at(j);
        let ghost before = duplicates@;
        proof {
            crate::ordered::lemma_value_at(counts, j as int);
            crate::ordered::lemma_with_entry(before, hash, count);
        }
        if count > 1 {
            let _ = duplicates.insert(hash, count);
        }
        proof {
            assert forall|h: DeployHash| #[trigger] crate::ordered::value_of(duplicates@, h) == match crate::ordered::value_of(counts, h) {
                Some(c) => if c > 1 && crate::ordered::rank(counts, h) < j + 1 {
                    Some(c)
                } else {
                    None
                },
                None => None,
            } by {
                if h != hash && crate::ordered::value_of(counts, h) is Some && crate::ordered::rank(counts, h) == j {
                    assert(counts[j as int].0 == h);
                }
                assert(crate::ordered::value_of(before, h) == crate::ordered::value_of(before, h));
            }
        }
        j += 1;
    }
    proof {
        assert forall|h: DeployHash| #[trigger] crate::ordered::value_of(duplicates@, h) == if occurrences(deploys@, h) > 1 {
            Some(occurrences(deploys@, h) as usize)
        } else {
            None
        } by {
            assert(0 <= occurrences(deploys@, h) <= deploys@.len());
            assert(crate::ordered::value_of(counts, h) == if occurrences(deploys@, h) > 0 {
                Some(occurrences(deploys@, h) as usize)
            } else {
                None
            });
        }
    }
    duplicates
}

/// Taking out the first state takes out its model.
proof fn lemma_states_view_front<T: View, I>(states: Seq<(Rc<T>, BlockValidationState<I>)>)
    requires
        states.len() > 0,
    ensures
        states_view(states.remove(0)) == states_view(states).skip(1),
{
    assert(states_view(states.remove(0)) =~= states_view(states).skip(1));
}

/// Sweeping leaves some of the blocks, in the same order.
proof fn lemma_sweep_keys<K, I>(
    states: Seq<(K, StateModel<I>)>,
    step: spec_fn(K, StateModel<I>) -> (Option<StateModel<I>>, Seq<EffectModel<K, I>>),
)
    requires
        crate::collections::keys_distinct(states),
    ensures
        crate::collections::keys_distinct(sweep(states, step).0),
        forall|j: int| 0 <= j < sweep(states, step).0.len() ==> has_block(states, (#[trigger] sweep(states, step).0[j]).0),
    decreases states.len(),
{
    if states.len() > 0 {
        let rest = states.drop_last();
        lemma_sweep_keys(rest, step);
        let kept = sweep(rest, step).0;
        let all = sweep(states, step).0;
        assert forall|j: int| 0 <= j < all.len() implies has_block(states, (#[trigger] all[j]).0) by {
            if j < kept.len() {
                assert(has_block(rest, kept[j].0));
                let i = choose|i: int| 0 <= i < rest.len() && (#[trigger] rest[i]).0 == kept[j].0;
                assert(states[i].0 == all[j].0);
            } else {
                assert(states[states.len() - 1].0 == all[j].0);
            }
        }
        assert forall|a: int, b: int| 0 <= a < b < all.len() implies (#[trigger] all[a]).0 != (#[trigger] all[b]).0 by {
            assert(all[a] == kept[a]);
            if b < kept.len() {
                assert(all[b] == kept[b]);
            } else {
                assert(has_block(rest, kept[a].0));
                let i = choose|i: int| 0 <= i < rest.len() && (#[trigger] rest[i]).0 == kept[a].0;
                assert(states[i].0 != states[states.len() - 1].0);
            }
        }
    }
}

/// Sweeping after a failed request leaves some of the blocks, in the same order.
proof fn lemma_missing_sweep_keys<K, I>(states: Seq<(K, StateModel<I>)>, hash: DeployHash)
    requires
        crate::collections::keys_distinct(states),
    ensures
        crate::collections::keys_distinct(missing_sweep(states, hash).0),
        forall|j: int| 0 <= j < missing_sweep(states, hash).0.len() ==> has_block(states, (#[trigger] missing_sweep(states, hash).0[j]).0),
    decreases states.len(),
{
    if states.len() > 0 {
        let rest = states.drop_last();
        lemma_missing_sweep_keys(rest, hash);
        let kept = missing_sweep(rest, hash).0;
        let all = missing_sweep(states, hash).0;
        assert forall|j: int| 0 <= j < all.len() implies has_block(states, (#[trigger] all[j]).0) by {
            if j < kept.len() {
                assert(has_block(rest, kept[j].0));
                let i = choose|i: int| 0 <= i < rest.len() && (#[trigger] rest[i]).0 == kept[j].0;
                assert(states[i].0 == all[j].0);
            } else {
                assert(states[states.len() - 1].0 == all[j].0);
            }
        }
        assert forall|a: int, b: int| 0 <= a < b < all.len() implies (#[trigger] all[a]).0 != (#[trigger] all[b]).0 by {
            assert(all[a] == kept[a]);
            if b < kept.len() {
                assert(all[b] == kept[b]);
            } else {
                assert(has_block(rest, kept[a].0));
                let i = choose|i: int| 0 <= i < rest.len() && (#[trigger] rest[i]).0 == kept[a].0;
                assert(states[i].0 != states[states.len() - 1].0);
            }
        }
    }
}

/// Increasing the counts of other keys does not change that of `hash`.
proof fn lemma_all_increased_other(counts: Map<DeployHash, usize>, keys: Seq<DeployHash>, hash: DeployHash)
    requires
        !keys.contains(hash),
    ensures
        keyed_counter::count_of(all_increased(counts, keys), hash) == keyed_counter::count_of(counts, hash),
    decreases keys.len(),
{
    if keys.len() > 0 {
        let rest = keys.drop_last();
        assert(!rest.contains(hash)) by {
            if rest.contains(hash) {
                let i = rest.index_of(hash);
                assert(keys[i] == hash);
            }
        }
        assert(keys[keys.len() - 1] != hash);
        lemma_all_increased_other(counts, rest, hash);
    }
}

impl<T: BlockLike, I: MapKey> BlockValidator<T, I> {
    /// No block occurs twice.
    pub closed spec fn wf(&self) -> bool {
        &&& forall|i: int| 0 <= i < self.validation_states@.len() ==> (#[trigger] self.validation_states@[i]).1.wf()
        &&& self.in_flight.wf()
        &&& crate::collections::keys_distinct(states_view(self.validation_states@))
    }

    /// Creates a new block validator instance.
    pub fn new(deploy_config: DeployConfig) -> (r: BlockValidator<T, I>)
        ensures
            r.wf(),
            r@ == (ValidatorModel::<T::V, I> { deploy_config, states: Seq::empty(), in_flight: Map::empty() }),
    {
        let r = BlockValidator { deploy_config, validation_states: Vec::new(), in_flight: KeyedCounter::new() };
        assert(states_view(r.validation_states@) =~= Seq::empty());
        r
    }

    /// Returns the position of a block that is being validated.
    fn position(&self, block: &T) -> (r: Option<usize>)
        ensures
            match r {
                Some(i) => i < self@.states.len() && self@.states[i as int].0 == block@,
                None => !has_block(self@.states, block@),
            },
    {
        let mut i: usize = 0;
        while i < self.validation_states.len()
            invariant
                i <= self.validation_states@.len(),
                forall|j: int| 0 <= j < i ==> (#[trigger] self@.states[j]).0 != block@,
            decreases self.validation_states@.len() - i,
        {
            assert(self@.states[i as int] == entry_view(self.validation_states@[i as int]));
            if self.validation_states[i].0.same_block(block) {
                return Some(i);
            }
            i += 1;
        }
        None
    }

    /// Returns whether an event can be handled: an answer was asked for, the deploy found can be dated,
    /// and the requests in flight can be counted.
    pub fn can_handle_event(&self, event: &Event<T, I>) -> (r: bool)
        requires
            self.wf(),
        ensures
            r == can_handle(self@, *event),
    {
        match event {
            Event::Request(request) => {
                let deploys = request.block.deploys();
                let mut i: usize = 0;
                while i < deploys.len()
                    invariant
                        i <= deploys@.len(),
                        deploys@ == T::deploys_of(request.block@),
                        *event == Event::Request(*request),
                        self.wf(),
                        forall|j: int| 0 <= j < i ==> keyed_counter::count_of(self@.in_flight, #[trigger] deploys@[j]) < usize::MAX,
                    decreases deploys@.len() - i,
                {
                    if self.in_flight.count(&deploys[i]) == usize::MAX {
                        assert(keyed_counter::count_of(self@.in_flight, deploys@[i as int]) == usize::MAX);
                        return false;
                    }
                    i += 1;
                }
                true
            },
            Event::DeployFound { deploy_hash, deploy_type } => {
                let header = deploy_type.header();
                header.timestamp.0.checked_add(header.ttl.0).is_some() && self.in_flight.count(deploy_hash) > 0
            },
            Event::DeployMissing(deploy_hash) => self.in_flight.count(deploy_hash) > 0,
            Event::CannotConvertDeploy(deploy_hash) => self.in_flight.count(deploy_hash) > 0,
        }
    }

    /// Handles an event; returns what is to be done, in order.
    pub fn handle_event(&mut self, event: Event<T, I>) -> (effects: Vec<Effect<T, I>>)
        requires
            old(self).wf(),
            can_handle(old(self)@, event),
        ensures
            final(self).wf(),
            handled(old(self)@, event, final(self)@, effects_view(effects@)),
    {
        match event {
            Event::Request(request) => self.handle_request(request),
            Event::DeployFound { deploy_hash, deploy_type } => self.handle_found(deploy_hash, deploy_type),
            Event::DeployMissing(deploy_hash) => self.handle_missing(deploy_hash),
            Event::CannotConvertDeploy(deploy_hash) => self.handle_cannot_convert(deploy_hash),
        }
    }

    /// Starts the validation of a block, or joins one that is going on.
    fn handle_request(&mut self, request: BlockValidationRequest<T, I>) -> (effects: Vec<Effect<T, I>>)
        requires
            old(self).wf(),
            can_handle(old(self)@, Event::Request(request)),
        ensures
            final(self).wf(),
            requested(old(self)@, request, final(self)@, effects_view(effects@)),
    {
        let ghost pre = self@;
        let BlockValidationRequest { block, sender, responder, block_timestamp } = request;
        let mut effects: Vec<Effect<T, I>> = Vec::new();
        let block_deploys = block.deploys();
        // Collect the deploys in a set; this also deduplicates them.
        let missing_deploys = VecSet::from_vec(&block_deploys);
        if missing_deploys.len() != block_deploys.len() {
            let duplicates = replayed_deploys(&block_deploys);
            effects.push(Effect::ReportReplay { sender, duplicates });
            effects.push(Effect::Respond { responder, valid: false, block });
            proof {
                assert(effects_view(effects@) =~= seq![effects@[0]@, effects@[1]@]);
            }
            return effects;
        }
        if missing_deploys.is_empty() {
            // If there are no deploys, return early.
            effects.push(Effect::Respond { responder, valid: true, block });
            assert(effects_view(effects@) =~= seq![effects@[0]@]);
            return effects;
        }
        match self.position(&block) {
            Some(i) => {
                proof {
                    assert(pre.states[i as int] == entry_view(self.validation_states@[i as int]));
                    assert(has_block(pre.states, block@));
                }
                // The entry already exists.
                if self.validation_states[i].1.missing_deploys.is_empty() {
                    // Block has already been validated successfully, early return to caller.
                    effects.push(Effect::Respond { responder, valid: true, block });
                    assert(effects_view(effects@) =~= seq![effects@[0]@]);
                } else {
                    let ghost before = self.validation_states@;
                    // We register ourselves as someone interested in the ultimate validation
                    // result.
                    push_responder(&mut self.validation_states[i].1.responders, responder);
                    // And add an alternative source of data.
                    let _ = self.validation_states[i].1.add_source(sender);
                    proof {
                        let after = self.validation_states@;
                        assert(forall|j: int| 0 <= j < after.len() && j != i ==> after[j] == before[j]);
                        let state = pre.states[i as int].1;
                        let waiting = StateModel { responders: state.responders.push(responder), ..state };
                        assert(after[i as int].1@ =~= waiting.with_source(sender));
                        assert(states_view(after) =~= pre.states.update(i as int, (block@, waiting.with_source(sender))));
                        assert(effects_view(effects@) =~= Seq::empty());
                    }
                }
            },
            None => {
                // Create an entry to track the state.
                let ghost deploys = T::deploys_of(block@);
                let mut j: usize = 0;
                let ghost all = fetches::<T::V, I>(deploys, sender);
                assert(deploys.take(0) =~= Seq::empty());
                assert(effects_view(effects@) =~= all.take(0));
                while j < block_deploys.len()
                    invariant
                        j <= block_deploys@.len(),
                        block_deploys@ == deploys,
                        deploys.no_duplicates(),
                        all == fetches::<T::V, I>(deploys, sender),
                        self.in_flight.wf(),
                        self.in_flight@ == all_increased(pre.in_flight, deploys.take(j as int)),
                        effects_view(effects@) == all.take(j as int),
                        self.validation_states@ == old(self).validation_states@,
                        self.deploy_config == old(self).deploy_config,
                        none_full(pre.in_flight, deploys),
                    decreases block_deploys@.len() - j,
                {
                    let deploy_hash = block_deploys[j];
                    proof {
                        let prefix = deploys.take(j as int);
                        assert(!prefix.contains(deploy_hash)) by {
                            if prefix.contains(deploy_hash) {
                                let k = prefix.index_of(deploy_hash);
                                assert(deploys[k] == deploys[j as int]);
                            }
                        }
                        lemma_all_increased_other(pre.in_flight, prefix, deploy_hash);
                        assert(deploys[j as int] == deploy_hash);
                        assert(deploys.take(j + 1).drop_last() =~= prefix);
                        assert(deploys.take(j + 1).last() == deploy_hash);
                    }
                    // For every request, increase the number of in-flight...
                    let _ = self.in_flight.inc(&deploy_hash);
                    // ...and request it.
                    let ghost before = effects@;
                    let effect = Effect::FetchDeploy { deploy_hash, sender };
                    proof {
                        lemma_effects_push(before, effect);
                        assert(effect@ == all[j as int]);
                    }
                    effects.push(effect);
                    assert(effects_view(effects@) =~= all.take(j + 1));
                    j += 1;
                }
                assert(deploys.take(deploys.len() as int) =~= deploys);
                assert(all.take(deploys.len() as int) =~= all);
                let mut responders = no_responders();
                push_responder(&mut responders, responder);
                let state = BlockValidationState {
                    appendable_block: AppendableBlock::new(self.deploy_config, block_timestamp),
                    missing_deploys,
                    responders,
                    // This is empty because we create the first request using `sender`.
                    sources: VecDeque::new(),
                };
                proof {
                    assert(responder_list(state.responders) =~= seq![responder]);
                    assert(states_view(self.validation_states@.push((block, state))) =~= pre.states.push((block@, state@)));
                }
                self.validation_states.push((block, state));
            },
        }
        effects
    }

    /// Crosses a deploy off wherever it was missing.
    fn handle_found(&mut self, deploy_hash: DeployHash, deploy_type: DeployType) -> (effects: Vec<Effect<T, I>>)
        requires
            old(self).wf(),
            can_handle(old(self)@, Event::<T, I>::DeployFound { deploy_hash, deploy_type }),
        ensures
            final(self).wf(),
            handled(
                old(self)@,
                Event::<T, I>::DeployFound { deploy_hash, deploy_type },
                final(self)@,
                effects_view(effects@),
            ),
    {
        let ghost pre = self@;
        let ghost step = found_step::<T::V, I>(deploy_hash, deploy_type);
        let mut effects: Vec<Effect<T, I>> = Vec::new();
        // We successfully found a hash. Decrease the number of outstanding requests.
        let _ = self.in_flight.dec(&deploy_hash);
        let mut rest: Vec<(Rc<T>, BlockValidationState<I>)> = Vec::new();
        std::mem::swap(&mut rest, &mut self.validation_states);
        let mut kept: Vec<(Rc<T>, BlockValidationState<I>)> = Vec::new();
        let n = rest.len();
        let mut i: usize = 0;
        proof {
            assert(states_view(rest@) =~= pre.states.skip(0));
            assert(states_view(kept@) =~= sweep(pre.states.take(0), step).0);
            assert(effects_view(effects@) =~= sweep(pre.states.take(0), step).1);
        }
        while i < n
            invariant
                i <= n,
                n == pre.states.len(),
                step == found_step::<T::V, I>(deploy_hash, deploy_type),
                deploy_type.spec_header().wf(),
                rest@.len() == n - i,
                states_view(rest@) == pre.states.skip(i as int),
                forall|j: int| 0 <= j < rest@.len() ==> (#[trigger] rest@[j]).1.wf(),
                states_view(kept@) == sweep(pre.states.take(i as int), step).0,
                forall|j: int| 0 <= j < kept@.len() ==> (#[trigger] kept@[j]).1.wf(),
                effects_view(effects@) == sweep(pre.states.take(i as int), step).1,
            decreases n - i,
        {
            let ghost kept_before = kept@;
            let ghost rest_before = rest@;
            assert(rest@[0].1.wf());
            assert(states_view(rest@)[0] == pre.states[i as int]);
            let (block, mut state) = rest.remove(0);
            let ghost entry = pre.states[i as int];
            proof {
                assert(entry == (block@, state@));
                lemma_states_view_front(rest_before);
                assert(states_view(rest@) =~= pre.states.skip(i + 1));
                assert(pre.states.take(i + 1).drop_last() =~= pre.states.take(i as int));
                assert(pre.states.take(i + 1).last() == entry);
            }
            let mut invalid = false;
            if state.missing_deploys.remove(&deploy_hash) {
                if state.appendable_block.add(deploy_hash, &deploy_type).is_err() {
                    invalid = true;
                }
            }
            assert(entry.1.missing.remove(deploy_hash) =~= state.missing_deploys@);
            assert(!invalid ==> state@ =~= entry.1.crossed_off(deploy_hash, deploy_type));
            if invalid {
                // Notify everyone still waiting on it that all is lost.
                respond_all(&mut effects, &mut state, false, &block);
            } else if state.missing_deploys.is_empty() {
                // This one is done and valid.
                respond_all(&mut effects, &mut state, true, &block);
            } else {
                kept.push((block, state));
                assert(states_view(kept@) =~= states_view(kept_before).push((block@, state@)));
                assert(effects_view(effects@) =~= effects_view(effects@) + Seq::empty());
            }
            i += 1;
        }
        proof {
            assert(pre.states.take(n as int) =~= pre.states);
            lemma_sweep_keys(pre.states, step);
        }
        self.validation_states = kept;
        effects
    }

    /// Tries another source for a deploy, where there is one.
    fn handle_missing(&mut self, deploy_hash: DeployHash) -> (effects: Vec<Effect<T, I>>)
        requires
            old(self).wf(),
            can_handle(old(self)@, Event::<T, I>::DeployMissing(deploy_hash)),
        ensures
            final(self).wf(),
            handled(old(self)@, Event::<T, I>::DeployMissing(deploy_hash), final(self)@, effects_view(effects@)),
    {
        let ghost pre = self@;
        let mut effects: Vec<Effect<T, I>> = Vec::new();
        // A deploy failed to fetch. If there is still hope (i.e. other outstanding requests), we
        // just ignore this little accident.
        if self.in_flight.dec(&deploy_hash) != 0 {
            assert(effects_view(effects@) =~= Seq::empty());
            return effects;
        }
        // Flag indicating whether we've retried fetching the deploy.
        let mut retried = false;
        let mut rest: Vec<(Rc<T>, BlockValidationState<I>)> = Vec::new();
        std::mem::swap(&mut rest, &mut self.validation_states);
        let mut kept: Vec<(Rc<T>, BlockValidationState<I>)> = Vec::new();
        let n = rest.len();
        let mut i: usize = 0;
        proof {
            assert(states_view(rest@) =~= pre.states.skip(0));
            assert(states_view(kept@) =~= missing_sweep(pre.states.take(0), deploy_hash).0);
            assert(effects_view(effects@) =~= missing_sweep(pre.states.take(0), deploy_hash).1);
        }
        while i < n
            invariant
                i <= n,
                n == pre.states.len(),
                rest@.len() == n - i,
                states_view(rest@) == pre.states.skip(i as int),
                forall|j: int| 0 <= j < rest@.len() ==> (#[trigger] rest@[j]).1.wf(),
                states_view(kept@) == missing_sweep(pre.states.take(i as int), deploy_hash).0,
                forall|j: int| 0 <= j < kept@.len() ==> (#[trigger] kept@[j]).1.wf(),
                effects_view(effects@) == missing_sweep(pre.states.take(i as int), deploy_hash).1,
                retried == missing_sweep(pre.states.take(i as int), deploy_hash).2,
            decreases n - i,
        {
            let ghost kept_before = kept@;
            let ghost rest_before = rest@;
            assert(rest@[0].1.wf());
            assert(states_view(rest@)[0] == pre.states[i as int]);
            let (block, mut state) = rest.remove(0);
            let ghost entry = pre.states[i as int];
            proof {
                assert(entry == (block@, state@));
                lemma_states_view_front(rest_before);
                assert(states_view(rest@) =~= pre.states.skip(i + 1));
                assert(pre.states.take(i + 1).drop_last() =~= pre.states.take(i as int));
                assert(pre.states.take(i + 1).last() == entry);
            }
            if !state.missing_deploys.contains(&deploy_hash) || retried {
                // We don't want to retry downloading the same element more than once.
                kept.push((block, state));
                assert(states_view(kept@) =~= states_view(kept_before).push((block@, state@)));
            } else {
                match state.source() {
                    Some(peer) => {
                        // There's still hope to download the deploy.
                        let ghost before = effects@;
                        let effect = Effect::FetchDeploy { deploy_hash, sender: peer };
                        proof {
                            lemma_effects_push(before, effect);
                        }
                        effects.push(effect);
                        retried = true;
                        kept.push((block, state));
                        assert(states_view(kept@) =~= states_view(kept_before).push((block@, state@)));
                    },
                    None => {
                        // Notify everyone still waiting on it that all is lost. This validation
                        // state contains a failed deploy hash, it can never succeed.
                        respond_all(&mut effects, &mut state, false, &block);
                    },
                }
            }
            i += 1;
        }
        proof {
            assert(pre.states.take(n as int) =~= pre.states);
            lemma_missing_sweep_keys(pre.states, deploy_hash);
        }
        self.validation_states = kept;
        if retried {
            // If we retried, we need to increase this counter.
            let _ = self.in_flight.inc(&deploy_hash);
            proof {
                keyed_counter::law_inc_dec(pre.in_flight, deploy_hash);
                assert(self.in_flight@ =~= pre.in_flight);
            }
        }
        effects
    }

    /// Gives up on the blocks that contain a deploy of no known type.
    fn handle_cannot_convert(&mut self, deploy_hash: DeployHash) -> (effects: Vec<Effect<T, I>>)
        requires
            old(self).wf(),
            can_handle(old(self)@, Event::<T, I>::CannotConvertDeploy(deploy_hash)),
        ensures
            final(self).wf(),
            handled(old(self)@, Event::<T, I>::CannotConvertDeploy(deploy_hash), final(self)@, effects_view(effects@)),
    {
        let ghost pre = self@;
        let ghost step = cannot_convert_step::<T::V, I>(deploy_hash);
        let mut effects: Vec<Effect<T, I>> = Vec::new();
        // Deploy is invalid. There's no point waiting for other in-flight requests to finish.
        let _ = self.in_flight.dec(&deploy_hash);
        let mut rest: Vec<(Rc<T>, BlockValidationState<I>)> = Vec::new();
        std::mem::swap(&mut rest, &mut self.validation_states);
        let mut kept: Vec<(Rc<T>, BlockValidationState<I>)> = Vec::new();
        let n = rest.len();
        let mut i: usize = 0;
        proof {
            assert(states_view(rest@) =~= pre.states.skip(0));
            assert(states_view(kept@) =~= sweep(pre.states.take(0), step).0);
            assert(effects_view(effects@) =~= sweep(pre.states.take(0), step).1);
        }
        while i < n
            invariant
                i <= n,
                n == pre.states.len(),
                step == cannot_convert_step::<T::V, I>(deploy_hash),
                rest@.len() == n - i,
                states_view(rest@) == pre.states.skip(i as int),
                forall|j: int| 0 <= j < rest@.len() ==> (#[trigger] rest@[j]).1.wf(),
                states_view(kept@) == sweep(pre.states.take(i as int), step).0,
                forall|j: int| 0 <= j < kept@.len() ==> (#[trigger] kept@[j]).1.wf(),
                effects_view(effects@) == sweep(pre.states.take(i as int), step).1,
            decreases n - i,
        {
            let ghost kept_before = kept@;
            let ghost rest_before = rest@;
            assert(rest@[0].1.wf());
            assert(states_view(rest@)[0] == pre.states[i as int]);
            let (block, mut state) = rest.remove(0);
            let ghost entry = pre.states[i as int];
            proof {
                assert(entry == (block@, state@));
                lemma_states_view_front(rest_before);
                assert(states_view(rest@) =~= pre.states.skip(i + 1));
                assert(pre.states.take(i + 1).drop_last() =~= pre.states.take(i as int));
                assert(pre.states.take(i + 1).last() == entry);
            }
            if state.missing_deploys.contains(&deploy_hash) {
                // Notify everyone still waiting on it that all is lost. This validation state
                // contains a failed deploy hash, it can never succeed.
                respond_all(&mut effects, &mut state, false, &block);
            } else {
                kept.push((block, state));
                assert(states_view(kept@) =~= states_view(kept_before).push((block@, state@)));
                assert(effects_view(effects@) =~= effects_view(effects@) + Seq::empty());
            }
            i += 1;
        }
        proof {
            assert(pre.states.take(n as int) =~= pre.states);
            lemma_sweep_keys(pre.states, step);
        }
        self.validation_states = kept;
        effects
    }
}

/// Every block under validation misses a deploy, and for every missing deploy a request is in
/// flight, so that each validation will come to an end.
pub open spec fn progressing<K, I>(m: ValidatorModel<K, I>) -> bool {
    &&& forall|i: int| 0 <= i < m.states.len() ==> (#[trigger] m.states[i]).1.missing != Set::<DeployHash>::empty()
    &&& forall|i: int, h: DeployHash| 0 <= i < m.states.len() && #[trigger] m.states[i].1.missing.contains(h) ==> keyed_counter::count_of(m.in_flight, h) > 0
}

/// A state that is left after sweeping was there before, and `step` kept it.
pub proof fn lemma_sweep_origin<K, I>(
    states: Seq<(K, StateModel<I>)>,
    step: spec_fn(K, StateModel<I>) -> (Option<StateModel<I>>, Seq<EffectModel<K, I>>),
    j: int,
) -> (i: int)
    requires
        0 <= j < sweep(states, step).0.len(),
    ensures
        0 <= i < states.len(),
        sweep(states, step).0[j].0 == states[i].0,
        step(states[i].0, states[i].1).0 == Some(sweep(states, step).0[j].1),
    decreases states.len(),
{
    let rest = states.drop_last();
    let kept = sweep(rest, step).0;
    if j < kept.len() {
        lemma_sweep_origin(rest, step, j)
    } else {
        states.len() - 1
    }
}

/// A state that is left after a failed request was there before, missing the same deploys, and
/// misses the failed one only if another source is asked for it.
pub proof fn lemma_missing_sweep_origin<K, I>(states: Seq<(K, StateModel<I>)>, hash: DeployHash, j: int) -> (i: int)
    requires
        0 <= j < missing_sweep(states, hash).0.len(),
    ensures
        0 <= i < states.len(),
        missing_sweep(states, hash).0[j].0 == states[i].0,
        missing_sweep(states, hash).0[j].1.missing == states[i].1.missing,
        states[i].1.missing.contains(hash) ==> missing_sweep(states, hash).2,
    decreases states.len(),
{
    let rest = states.drop_last();
    let kept = missing_sweep(rest, hash).0;
    if j < kept.len() {
        lemma_missing_sweep_origin(rest, hash, j)
    } else {
        states.len() - 1
    }
}

/// Increasing counts makes them positive and makes none smaller.
pub proof fn lemma_all_increased(counts: Map<DeployHash, usize>, keys: Seq<DeployHash>, hash: DeployHash)
    requires
        keys.no_duplicates(),
        none_full(counts, keys),
    ensures
        keyed_counter::count_of(all_increased(counts, keys), hash) == keyed_counter::count_of(counts, hash) + (if keys.contains(hash) {
            1int
        } else {
            0
        }),
    decreases keys.len(),
{
    if keys.len() > 0 {
        let rest = keys.drop_last();
        assert(forall|i: int| 0 <= i < rest.len() ==> rest[i] == keys[i]);
        assert(none_full(counts, rest));
        lemma_all_increased(counts, rest, hash);
        lemma_all_increased(counts, rest, keys.last());
        assert(!rest.contains(keys.last())) by {
            if rest.contains(keys.last()) {
                let i = rest.index_of(keys.last());
                assert(keys[i] == keys[keys.len() - 1]);
            }
        }
        assert(keys[keys.len() - 1] == keys.last());
        if rest.contains(hash) {
            let i = rest.index_of(hash);
            assert(keys[i] == hash);
        } else if keys.contains(hash) {
            let i = keys.index_of(hash);
            assert(i == keys.len() - 1);
        }
    }
}

/// No event leaves a validation without hope of an end: every block under validation keeps missing
/// a deploy, and every missing deploy keeps having a request in flight.
pub proof fn law_validation_progresses<T: BlockLike, I>(
    pre: ValidatorModel<T::V, I>,
    event: Event<T, I>,
    post: ValidatorModel<T::V, I>,
    effects: Seq<EffectModel<T::V, I>>,
)
    requires
        progressing(pre),
        can_handle(pre, event),
        handled(pre, event, post, effects),
    ensures
        progressing(post),
{
    match event {
        Event::Request(request) => {
            let deploys = T::deploys_of(request.block@);
            if deploys.no_duplicates() && deploys.len() > 0 && !has_block(pre.states, request.block@) {
                assert(deploys.to_set().contains(deploys[0]));
                assert forall|i: int| 0 <= i < post.states.len() implies (#[trigger] post.states[i]).1.missing != Set::<DeployHash>::empty() by {
                    if i < pre.states.len() {
                        assert(post.states[i] == pre.states[i]);
                    } else {
                        assert(post.states[i].1.missing.contains(deploys[0]));
                    }
                }
                assert forall|i: int, h: DeployHash| 0 <= i < post.states.len() && #[trigger] post.states[i].1.missing.contains(h) implies keyed_counter::count_of(post.in_flight, h) > 0 by {
                    lemma_all_increased(pre.in_flight, deploys, h);
                    if i < pre.states.len() {
                        assert(pre.states[i].1.missing.contains(h));
                    }
                }
            } else if deploys.no_duplicates() && deploys.len() > 0 {
                let k = choose|k: int|
                    {
                        &&& 0 <= k < pre.states.len()
                        &&& (#[trigger] pre.states[k]).0 == request.block@
                        &&& if pre.states[k].1.missing == Set::<DeployHash>::empty() {
                            post == pre
                        } else {
                            post.in_flight == pre.in_flight && post.states.len() == pre.states.len() && post.states == pre.states.update(
                                k,
                                post.states[k],
                            ) && post.states[k].1.missing == pre.states[k].1.missing
                        }
                    };
                assert forall|i: int| 0 <= i < post.states.len() implies (#[trigger] post.states[i]).1.missing == pre.states[i].1.missing by {
                    if i != k {
                        assert(post.states[i] == pre.states[i]);
                    }
                }
                assert forall|i: int, h: DeployHash| 0 <= i < post.states.len() && #[trigger] post.states[i].1.missing.contains(h) implies keyed_counter::count_of(post.in_flight, h) > 0 by {
                    assert(pre.states[i].1.missing.contains(h));
                }
            }
        },
        Event::DeployFound { deploy_hash, deploy_type } => {
            let step = found_step::<T::V, I>(deploy_hash, deploy_type);
            assert forall|j: int| 0 <= j < post.states.len() implies (#[trigger] post.states[j]).1.missing != Set::<DeployHash>::empty() by {
                let i = lemma_sweep_origin(pre.states, step, j);
            }
            assert forall|j: int, h: DeployHash| 0 <= j < post.states.len() && #[trigger] post.states[j].1.missing.contains(h) implies keyed_counter::count_of(post.in_flight, h) > 0 by {
                let i = lemma_sweep_origin(pre.states, step, j);
                assert(pre.states[i].1.missing.contains(h));
                assert(h != deploy_hash);
            }
        },
        Event::DeployMissing(deploy_hash) => {
            if keyed_counter::count_of(pre.in_flight, deploy_hash) > 1 {
                assert forall|i: int, h: DeployHash| 0 <= i < post.states.len() && #[trigger] post.states[i].1.missing.contains(h) implies keyed_counter::count_of(post.in_flight, h) > 0 by {
                    assert(pre.states[i].1.missing.contains(h));
                }
            } else {
                assert forall|j: int| 0 <= j < post.states.len() implies (#[trigger] post.states[j]).1.missing != Set::<DeployHash>::empty() by {
                    let i = lemma_missing_sweep_origin(pre.states, deploy_hash, j);
                    assert(pre.states[i].1.missing != Set::<DeployHash>::empty());
                }
                assert forall|j: int, h: DeployHash| 0 <= j < post.states.len() && #[trigger] post.states[j].1.missing.contains(h) implies keyed_counter::count_of(post.in_flight, h) > 0 by {
                    let i = lemma_missing_sweep_origin(pre.states, deploy_hash, j);
                    assert(pre.states[i].1.missing.contains(h));
                }
            }
        },
        Event::CannotConvertDeploy(deploy_hash) => {
            let step = cannot_convert_step::<T::V, I>(deploy_hash);
            assert forall|j: int| 0 <= j < post.states.len() implies (#[trigger] post.states[j]).1.missing != Set::<DeployHash>::empty() by {
                let i = lemma_sweep_origin(pre.states, step, j);
                assert(pre.states[i].1.missing != Set::<DeployHash>::empty());
            }
            assert forall|j: int, h: DeployHash| 0 <= j < post.states.len() && #[trigger] post.states[j].1.missing.contains(h) implies keyed_counter::count_of(post.in_flight, h) > 0 by {
                let i = lemma_sweep_origin(pre.states, step, j);
                assert(pre.states[i].1.missing.contains(h));
            }
        },
    }
}

/// An answer among those that sweeping after a failed request gives comes from a block that
/// misses the deploy and has no source left.
proof fn lemma_missing_answers<K, I>(states: Seq<(K, StateModel<I>)>, hash: DeployHash, e: int) -> (i: int)
    requires
        0 <= e < missing_sweep(states, hash).1.len(),
        missing_sweep(states, hash).1[e] is Respond,
    ensures
        0 <= i < states.len(),
        states[i].1.missing.contains(hash),
        states[i].1.sources.len() == 0,
        missing_sweep(states, hash).1[e] matches EffectModel::Respond { responder, valid, block } && !valid && block == states[i].0
            && states[i].1.responders.contains(responder),
    decreases states.len(),
{
    let rest = states.drop_last();
    let (kept, effects, retried) = missing_sweep(rest, hash);
    if e < effects.len() {
        assert(missing_sweep(states, hash).1[e] == effects[e]);
        lemma_missing_answers(rest, hash, e)
    } else {
        let (key, state) = states.last();
        let k = e - effects.len();
        assert(missing_sweep(states, hash).1[e] == answers::<K, I>(state.responders, false, key)[k]);
        assert(state.responders[k] == state.responders[k]);
        states.len() - 1
    }
}

/// When a deploy cannot be fetched, a validation fails only if no other request for that deploy is
/// in flight and all sources for the block have been exhausted.
pub proof fn law_fails_only_when_exhausted<T: BlockLike, I>(
    pre: ValidatorModel<T::V, I>,
    deploy_hash: DeployHash,
    post: ValidatorModel<T::V, I>,
    effects: Seq<EffectModel<T::V, I>>,
    e: int,
)
    requires
        handled(pre, Event::<T, I>::DeployMissing(deploy_hash), post, effects),
        0 <= e < effects.len(),
        effects[e] is Respond,
    ensures
        keyed_counter::count_of(pre.in_flight, deploy_hash) <= 1,
        exists|i: int|
            {
                &&& 0 <= i < pre.states.len()
                &&& (#[trigger] pre.states[i]).1.missing.contains(deploy_hash)
                &&& pre.states[i].1.sources.len() == 0
                &&& effects[e] matches EffectModel::Respond { responder, valid, block } && !valid && block == pre.states[i].0
                    && pre.states[i].1.responders.contains(responder)
            },
{
    let i = lemma_missing_answers(pre.states, deploy_hash, e);
    assert(pre.states[i].1.missing.contains(deploy_hash));
}

/// As soon as the last missing deploy of a block is found and fits, everyone waiting for the block
/// is told that it is valid, and the validation is over.
pub proof fn law_valid_as_soon_as_complete<T: BlockLike, I>(
    pre: ValidatorModel<T::V, I>,
    deploy_hash: DeployHash,
    deploy_type: DeployType,
    post: ValidatorModel<T::V, I>,
    effects: Seq<EffectModel<T::V, I>>,
    i: int,
    r: int,
)
    requires
        handled(pre, Event::<T, I>::DeployFound { deploy_hash, deploy_type }, post, effects),
        crate::collections::keys_distinct(pre.states),
        0 <= i < pre.states.len(),
        pre.states[i].1.missing == set![deploy_hash],
        pre.states[i].1.appendable.add_error(deploy_hash, deploy_type) is None,
        0 <= r < pre.states[i].1.responders.len(),
    ensures
        effects.contains(
            EffectModel::Respond { responder: pre.states[i].1.responders[r], valid: true, block: pre.states[i].0 },
        ),
        !has_block(post.states, pre.states[i].0),
{
    let step = found_step::<T::V, I>(deploy_hash, deploy_type);
    let (key, state) = pre.states[i];
    assert(set![deploy_hash].remove(deploy_hash) =~= Set::<DeployHash>::empty());
    assert(step(key, state) == (None::<StateModel<I>>, answers::<T::V, I>(state.responders, true, key)));
    lemma_sweep_effect(pre.states, step, i, r);
    if has_block(post.states, key) {
        let j = choose|j: int| 0 <= j < post.states.len() && (#[trigger] post.states[j]).0 == key;
        let k = lemma_sweep_origin(pre.states, step, j);
        assert(k == i);
    }
}

/// What a step causes is among what the sweep causes.
pub proof fn lemma_sweep_effect<K, I>(
    states: Seq<(K, StateModel<I>)>,
    step: spec_fn(K, StateModel<I>) -> (Option<StateModel<I>>, Seq<EffectModel<K, I>>),
    i: int,
    r: int,
)
    requires
        0 <= i < states.len(),
        0 <= r < step(states[i].0, states[i].1).1.len(),
    ensures
        sweep(states, step).1.contains(step(states[i].0, states[i].1).1[r]),
    decreases states.len(),
{
    let rest = states.drop_last();
    let effects = sweep(rest, step).1;
    let all = sweep(states, step).1;
    if i < rest.len() {
        lemma_sweep_effect(rest, step, i, r);
        let k = effects.index_of(step(states[i].0, states[i].1).1[r]);
        assert(all[k] == effects[k]);
    } else {
        assert(all[effects.len() + r] == step(states[i].0, states[i].1).1[r]);
    }
}

} // verus!
