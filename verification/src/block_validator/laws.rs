//! What the block validator answers, and when.

use crate::block_validator::{BlockLike, BlockValidationRequest, Event};
use crate::deploy::DeployType;
use crate::hash::DeployHash;
use crate::linear_chain_sync::FetchResult;
use crate::types::{Block, ProtoBlock};
use vstd::prelude::*;

verus! {

/// The transfers in a block are deploys as much as the others.
pub proof fn law_transfers_are_deploys(block: crate::types::BlockModel, proto_block: crate::types::ProtoBlockModel, hash: DeployHash)
    ensures
        <Block as BlockLike>::deploys_of(block).contains(hash) == (block.header.deploy_hashes.contains(hash)
            || block.header.transfer_hashes.contains(hash)),
        <ProtoBlock as BlockLike>::deploys_of(proto_block).contains(hash) == (proto_block.deploys.contains(hash)
            || proto_block.transfers.contains(hash)),
        <Block as BlockLike>::deploys_of(block).len() == block.header.deploy_hashes.len() + block.header.transfer_hashes.len(),
        <ProtoBlock as BlockLike>::deploys_of(proto_block).len() == proto_block.deploys.len() + proto_block.transfers.len(),
{
    lemma_concat(block.header.deploy_hashes, block.header.transfer_hashes, hash);
    lemma_concat(proto_block.deploys, proto_block.transfers, hash);
}

proof fn lemma_concat<A>(a: Seq<A>, b: Seq<A>, x: A)
    ensures
        (a + b).contains(x) == (a.contains(x) || b.contains(x)),
{
    let c = a + b;
    if a.contains(x) {
        let i = a.index_of(x);
        assert(c[i] == x);
    }
    if b.contains(x) {
        let i = b.index_of(x);
        assert(c[a.len() + i] == x);
    }
    if c.contains(x) {
        let i = c.index_of(x);
        if i < a.len() {
            assert(a[i] == x);
        } else {
            assert(b[i - a.len()] == x);
        }
    }
}

/// A block that no validation is under way for has all its deploys fetched from the sender of the
/// request, in order, and is valid only once every one of them was found; each is being fetched once
/// more than before, and nothing else is.
pub proof fn law_new_block_is_fetched<T: BlockLike, I>(
    pre: crate::block_validator::ValidatorModel<T::V, I>,
    request: BlockValidationRequest<T, I>,
    post: crate::block_validator::ValidatorModel<T::V, I>,
    effects: Seq<crate::block_validator::EffectModel<T::V, I>>,
    hash: DeployHash,
)
    requires
        crate::block_validator::handled(pre, Event::Request(request), post, effects),
        crate::block_validator::can_handle(pre, Event::Request(request)),
        T::deploys_of(request.block@).no_duplicates(),
        T::deploys_of(request.block@).len() > 0,
        forall|i: int| 0 <= i < pre.states.len() ==> (#[trigger] pre.states[i]).0 != request.block@,
    ensures
        ({
            let deploys = T::deploys_of(request.block@);
            let new = post.states.last();
            &&& effects.len() == deploys.len()
            &&& forall|i: int|
                0 <= i < deploys.len() ==> (#[trigger] effects[i]) == (crate::block_validator::EffectModel::<T::V, I>::FetchDeploy {
                    deploy_hash: deploys[i],
                    sender: request.sender,
                })
            &&& post.states.len() == pre.states.len() + 1
            &&& post.states.drop_last() == pre.states
            &&& new.0 == request.block@
            &&& new.1.missing.contains(hash) == deploys.contains(hash)
            &&& new.1.responders.len() == 1
            &&& new.1.responders[0] == request.responder
            &&& new.1.sources.len() == 0
            &&& new.1.appendable.deploys.len() == 0
            &&& new.1.appendable.transfers.len() == 0
            &&& new.1.appendable.total_gas == 0
            &&& new.1.appendable.total_size == 0
            &&& new.1.appendable.timestamp == request.block_timestamp
            &&& new.1.appendable.deploy_config == pre.deploy_config
            &&& post.deploy_config == pre.deploy_config
            &&& crate::block_validator::keyed_counter::count_of(post.in_flight, hash) == crate::block_validator::keyed_counter::count_of(
                pre.in_flight,
                hash,
            ) + (if deploys.contains(hash) {
                1int
            } else {
                0
            })
        }),
{
    let deploys = T::deploys_of(request.block@);
    crate::block_validator::lemma_all_increased(pre.in_flight, deploys, hash);
    assert(post.states.drop_last() =~= pre.states);
}

/// A request for a block whose validation is under way is answered together with those before it, and its
/// sender is another source for the block's deploys; nothing is fetched.
pub proof fn law_known_block_is_waited_for<T: BlockLike, I>(
    pre: crate::block_validator::ValidatorModel<T::V, I>,
    request: BlockValidationRequest<T, I>,
    post: crate::block_validator::ValidatorModel<T::V, I>,
    effects: Seq<crate::block_validator::EffectModel<T::V, I>>,
    i: int,
    h: DeployHash,
)
    requires
        crate::block_validator::handled(pre, Event::Request(request), post, effects),
        crate::collections::keys_distinct(pre.states),
        T::deploys_of(request.block@).no_duplicates(),
        T::deploys_of(request.block@).len() > 0,
        0 <= i < pre.states.len(),
        pre.states[i].0 == request.block@,
        pre.states[i].1.missing.contains(h),
    ensures
        ({
            let before = pre.states[i].1;
            let after = post.states[i].1;
            &&& effects.len() == 0
            &&& post.in_flight == pre.in_flight
            &&& post.states.len() == pre.states.len()
            &&& forall|j: int| 0 <= j < pre.states.len() && j != i ==> #[trigger] post.states[j] == pre.states[j]
            &&& post.states[i].0 == request.block@
            &&& after.missing == before.missing
            &&& after.appendable == before.appendable
            &&& after.responders.len() == before.responders.len() + 1
            &&& after.responders.drop_last() == before.responders
            &&& after.responders.last() == request.responder
            &&& after.sources.contains(request.sender)
            &&& before.sources.contains(request.sender) ==> after.sources == before.sources
            &&& !before.sources.contains(request.sender) ==> after.sources.drop_last() == before.sources
        }),
{
    assert(crate::block_validator::has_block(pre.states, request.block@));
    let before = pre.states[i].1;
    assert(before.missing != Set::<DeployHash>::empty()) by {
        assert(!Set::<DeployHash>::empty().contains(h));
    }
    let k = choose|k: int|
        {
            &&& 0 <= k < pre.states.len()
            &&& (#[trigger] pre.states[k]).0 == request.block@
            &&& if pre.states[k].1.missing == Set::<DeployHash>::empty() {
                post == pre && effects == seq![
                    crate::block_validator::EffectModel::<T::V, I>::Respond {
                        responder: request.responder,
                        valid: true,
                        block: request.block@,
                    },
                ]
            } else {
                let state = pre.states[k].1;
                let waiting = crate::block_validator::StateModel { responders: state.responders.push(request.responder), ..state };
                &&& post == (crate::block_validator::ValidatorModel {
                    states: pre.states.update(k, (request.block@, waiting.with_source(request.sender))),
                    ..pre
                })
                &&& effects == Seq::<crate::block_validator::EffectModel<T::V, I>>::empty()
            }
        };
    assert(k == i);
    assert(before.responders.push(request.responder).drop_last() =~= before.responders);
    let after = post.states[i].1;
    if !before.sources.contains(request.sender) {
        assert(after.sources[before.sources.len() as int] == request.sender);
        assert(before.sources.push(request.sender).drop_last() =~= before.sources);
    }
}

/// How often something occurs.
proof fn lemma_occurrences(deploys: Seq<DeployHash>, hash: DeployHash)
    ensures
        crate::block_validator::occurrences(deploys, hash) == deploys.to_multiset().count(hash),
    decreases deploys.len(),
{
    broadcast use vstd::seq_lib::group_to_multiset_ensures;

    if deploys.len() > 0 {
        lemma_occurrences(deploys.drop_last(), hash);
        assert(deploys =~= deploys.drop_last().push(deploys.last()));
        assert(deploys.drop_last().push(deploys.last()).to_multiset() =~= deploys.drop_last().to_multiset().insert(deploys.last()));
    } else {
        assert(deploys.to_multiset().count(hash) == 0) by {
            assert(!deploys.contains(hash));
        }
    }
}

/// A block with some deploy in it more than once is not valid, at once, and its sender is reported with
/// exactly the deploys that occur more than once and how often each of them does. One without deploys is
/// valid at once.
pub proof fn law_answered_at_once<T: BlockLike, I>(
    pre: crate::block_validator::ValidatorModel<T::V, I>,
    request: BlockValidationRequest<T, I>,
    post: crate::block_validator::ValidatorModel<T::V, I>,
    effects: Seq<crate::block_validator::EffectModel<T::V, I>>,
    hash: DeployHash,
)
    requires
        crate::block_validator::handled(pre, Event::Request(request), post, effects),
        T::deploys_of(request.block@).len() <= usize::MAX,
    ensures
        ({
            let deploys = T::deploys_of(request.block@);
            &&& !deploys.no_duplicates() ==> {
                &&& post == pre
                &&& effects.len() == 2
                &&& effects[1] == (crate::block_validator::EffectModel::<T::V, I>::Respond {
                    responder: request.responder,
                    valid: false,
                    block: request.block@,
                })
                &&& effects[0] matches crate::block_validator::EffectModel::ReportReplay { sender, duplicates } && sender
                    == request.sender && crate::ordered::keys_increase(duplicates) && match crate::ordered::value_of(duplicates, hash) {
                    Some(n) => n > 1 && n == deploys.to_multiset().count(hash),
                    None => deploys.to_multiset().count(hash) <= 1,
                }
            }
            &&& deploys.len() == 0 ==> {
                &&& post == pre
                &&& effects.len() == 1
                &&& effects[0] == (crate::block_validator::EffectModel::<T::V, I>::Respond {
                    responder: request.responder,
                    valid: true,
                    block: request.block@,
                })
            }
        }),
{
    let deploys = T::deploys_of(request.block@);
    lemma_occurrences(deploys, hash);
    lemma_count_bound(deploys, hash);
    if deploys.len() == 0 {
        assert(deploys.no_duplicates());
    }
}

proof fn lemma_count_bound(deploys: Seq<DeployHash>, hash: DeployHash)
    ensures
        0 <= crate::block_validator::occurrences(deploys, hash) <= deploys.len(),
    decreases deploys.len(),
{
    if deploys.len() > 0 {
        lemma_count_bound(deploys.drop_last(), hash);
    }
}

/// What stays of one state in a sweep.
proof fn lemma_swept<K, I>(
    states: Seq<(K, crate::block_validator::StateModel<I>)>,
    step: spec_fn(K, crate::block_validator::StateModel<I>) -> (
        Option<crate::block_validator::StateModel<I>>,
        Seq<crate::block_validator::EffectModel<K, I>>,
    ),
    i: int,
)
    requires
        crate::collections::keys_distinct(states),
        0 <= i < states.len(),
    ensures
        ({
            let kept = crate::block_validator::sweep(states, step).0;
            match step(states[i].0, states[i].1).0 {
                Some(s) => kept.contains((states[i].0, s)),
                None => forall|j: int| 0 <= j < kept.len() ==> (#[trigger] kept[j]).0 != states[i].0,
            }
        }),
    decreases states.len(),
{
    let kept = crate::block_validator::sweep(states, step).0;
    match step(states[i].0, states[i].1).0 {
        Some(s) => {
            let front = states.drop_last();
            let before = crate::block_validator::sweep(front, step).0;
            if i < front.len() {
                assert(front[i] == states[i]);
                lemma_swept(front, step, i);
                let j = before.index_of((states[i].0, s));
                assert(kept[j] == (states[i].0, s));
            } else {
                assert(kept[kept.len() - 1] == (states[i].0, s));
            }
        },
        None => {
            assert forall|j: int| 0 <= j < kept.len() implies (#[trigger] kept[j]).0 != states[i].0 by {
                let k = crate::block_validator::lemma_sweep_origin(states, step, j);
                if kept[j].0 == states[i].0 {
                    assert(k == i);
                }
            }
        },
    }
}

/// Which state an effect of a sweep comes from.
proof fn lemma_swept_effect<K, I>(
    states: Seq<(K, crate::block_validator::StateModel<I>)>,
    step: spec_fn(K, crate::block_validator::StateModel<I>) -> (
        Option<crate::block_validator::StateModel<I>>,
        Seq<crate::block_validator::EffectModel<K, I>>,
    ),
    e: int,
) -> (at: (int, int))
    requires
        0 <= e < crate::block_validator::sweep(states, step).1.len(),
    ensures
        0 <= at.0 < states.len(),
        0 <= at.1 < step(states[at.0].0, states[at.0].1).1.len(),
        crate::block_validator::sweep(states, step).1[e] == step(states[at.0].0, states[at.0].1).1[at.1],
    decreases states.len(),
{
    let front = states.drop_last();
    let before = crate::block_validator::sweep(front, step).1;
    if e < before.len() {
        let at = lemma_swept_effect(front, step, e);
        assert(front[at.0] == states[at.0]);
        at
    } else {
        (states.len() - 1, e - before.len())
    }
}

/// A deploy that was found settles exactly the blocks that miss it. One in which it does not fit is not
/// valid; one that misses nothing else is valid; any other misses one deploy less, and counts this one in.
/// Everybody who asked about a settled block is answered, and the block is settled for good. Blocks that do
/// not miss the deploy stay as they are.
pub proof fn law_found_deploy_counts_in_every_block<T: BlockLike, I>(
    pre: crate::block_validator::ValidatorModel<T::V, I>,
    deploy_hash: DeployHash,
    deploy_type: DeployType,
    post: crate::block_validator::ValidatorModel<T::V, I>,
    effects: Seq<crate::block_validator::EffectModel<T::V, I>>,
    i: int,
    r: int,
    other: DeployHash,
)
    requires
        crate::block_validator::handled(pre, Event::<T, I>::DeployFound { deploy_hash, deploy_type }, post, effects),
        crate::collections::keys_distinct(pre.states),
        0 <= i < pre.states.len(),
        0 <= r < pre.states[i].1.responders.len(),
        other != deploy_hash,
    ensures
        ({
            let block = pre.states[i].0;
            let state = pre.states[i].1;
            let responder = state.responders[r];
            let fits = state.appendable.add_error(deploy_hash, deploy_type) is None;
            let gone = forall|j: int| 0 <= j < post.states.len() ==> (#[trigger] post.states[j]).0 != block;
            &&& state.missing.contains(deploy_hash) && !fits ==> gone && effects.contains(
                crate::block_validator::EffectModel::<T::V, I>::Respond { responder, valid: false, block },
            )
            &&& state.missing.contains(deploy_hash) && fits && (forall|h: DeployHash|
                #[trigger] state.missing.contains(h) ==> h == deploy_hash) ==> gone && effects.contains(
                crate::block_validator::EffectModel::<T::V, I>::Respond { responder, valid: true, block },
            )
            &&& state.missing.contains(deploy_hash) && fits && state.missing.contains(other) ==> exists|j: int|
                {
                    &&& 0 <= j < post.states.len()
                    &&& (#[trigger] post.states[j]).0 == block
                    &&& post.states[j].1.missing == state.missing.remove(deploy_hash)
                    &&& post.states[j].1.appendable == state.appendable.with_deploy(deploy_hash, deploy_type)
                    &&& post.states[j].1.responders == state.responders
                    &&& post.states[j].1.sources == state.sources
                }
            &&& !state.missing.contains(deploy_hash) && state.missing.contains(other) ==> post.states.contains(pre.states[i])
            &&& crate::block_validator::keyed_counter::count_of(post.in_flight, other)
                == crate::block_validator::keyed_counter::count_of(pre.in_flight, other)
        }),
{
    let step = crate::block_validator::found_step::<T::V, I>(deploy_hash, deploy_type);
    let block = pre.states[i].0;
    let state = pre.states[i].1;
    lemma_swept(pre.states, step, i);
    let out = step(block, state);
    let left = state.missing.remove(deploy_hash);
    if state.missing.contains(deploy_hash) {
        if state.appendable.add_error(deploy_hash, deploy_type) is Some {
            crate::block_validator::lemma_sweep_effect(pre.states, step, i, r);
        } else {
            if forall|h: DeployHash| #[trigger] state.missing.contains(h) ==> h == deploy_hash {
                assert(left =~= Set::<DeployHash>::empty());
                crate::block_validator::lemma_sweep_effect(pre.states, step, i, r);
            }
            if state.missing.contains(other) {
                assert(left.contains(other));
                assert(out.0 is Some);
                let entry = (block, out.0->0);
                let j = post.states.index_of(entry);
                assert(post.states[j] == entry);
            }
        }
    } else if state.missing.contains(other) {
        assert(state.missing != Set::<DeployHash>::empty());
        assert(out.0 == Some(state));
    }
}

/// Nobody is answered, when a deploy was found, but those who asked about a block that missed it or misses
/// nothing, and with whether the deploy fits.
pub proof fn law_answers_are_about_the_found_deploy<T: BlockLike, I>(
    pre: crate::block_validator::ValidatorModel<T::V, I>,
    deploy_hash: DeployHash,
    deploy_type: DeployType,
    post: crate::block_validator::ValidatorModel<T::V, I>,
    effects: Seq<crate::block_validator::EffectModel<T::V, I>>,
    e: int,
) -> (i: int)
    requires
        crate::block_validator::handled(pre, Event::<T, I>::DeployFound { deploy_hash, deploy_type }, post, effects),
        0 <= e < effects.len(),
    ensures
        0 <= i < pre.states.len(),
        effects[e] matches crate::block_validator::EffectModel::Respond { responder, valid, block } && {
            let state = pre.states[i].1;
            &&& block == pre.states[i].0
            &&& state.responders.contains(responder)
            &&& valid ==> forall|h: DeployHash| #[trigger] state.missing.contains(h) ==> h == deploy_hash
            &&& valid && state.missing.contains(deploy_hash) ==> state.appendable.add_error(deploy_hash, deploy_type) is None
            &&& !valid ==> state.missing.contains(deploy_hash) && state.appendable.add_error(deploy_hash, deploy_type) is Some
        },
{
    let step = crate::block_validator::found_step::<T::V, I>(deploy_hash, deploy_type);
    let at = lemma_swept_effect(pre.states, step, e);
    let state = pre.states[at.0].1;
    assert(state.responders.contains(state.responders[at.1]));
    if !state.spoilt_by(deploy_hash, deploy_type) {
        let left = state.crossed_off(deploy_hash, deploy_type).missing;
        assert(left == Set::<DeployHash>::empty());
        assert forall|h: DeployHash| #[trigger] state.missing.contains(h) implies h == deploy_hash by {
            assert(!left.contains(h));
        }
    }
    at.0
}

/// A deploy that cannot be converted spoils every block that misses it, and no other.
pub proof fn law_inconvertible_deploy_spoils_blocks<T: BlockLike, I>(
    pre: crate::block_validator::ValidatorModel<T::V, I>,
    deploy_hash: DeployHash,
    post: crate::block_validator::ValidatorModel<T::V, I>,
    effects: Seq<crate::block_validator::EffectModel<T::V, I>>,
    i: int,
    r: int,
    other: DeployHash,
)
    requires
        crate::block_validator::handled(pre, Event::<T, I>::CannotConvertDeploy(deploy_hash), post, effects),
        crate::collections::keys_distinct(pre.states),
        0 <= i < pre.states.len(),
        0 <= r < pre.states[i].1.responders.len(),
        other != deploy_hash,
    ensures
        ({
            let block = pre.states[i].0;
            let state = pre.states[i].1;
            &&& state.missing.contains(deploy_hash) ==> (forall|j: int|
                0 <= j < post.states.len() ==> (#[trigger] post.states[j]).0 != block) && effects.contains(
                crate::block_validator::EffectModel::<T::V, I>::Respond { responder: state.responders[r], valid: false, block },
            )
            &&& !state.missing.contains(deploy_hash) ==> post.states.contains(pre.states[i])
            &&& crate::block_validator::keyed_counter::count_of(post.in_flight, other)
                == crate::block_validator::keyed_counter::count_of(pre.in_flight, other)
        }),
{
    let step = crate::block_validator::cannot_convert_step::<T::V, I>(deploy_hash);
    lemma_swept(pre.states, step, i);
    if pre.states[i].1.missing.contains(deploy_hash) {
        crate::block_validator::lemma_sweep_effect(pre.states, step, i, r);
    }
}

/// One fetch of a deploy less is under way after each outcome, but where another source is tried. While
/// another fetch is under way, a failure settles nothing.
pub proof fn law_failures_wait_for_other_fetches<T: BlockLike, I>(
    pre: crate::block_validator::ValidatorModel<T::V, I>,
    deploy_hash: DeployHash,
    post: crate::block_validator::ValidatorModel<T::V, I>,
    effects: Seq<crate::block_validator::EffectModel<T::V, I>>,
)
    requires
        crate::block_validator::handled(pre, Event::<T, I>::DeployMissing(deploy_hash), post, effects),
        pre.in_flight.contains_key(deploy_hash),
        pre.in_flight[deploy_hash] > 1,
    ensures
        effects.len() == 0,
        post.states == pre.states,
        post.in_flight.contains_key(deploy_hash),
        post.in_flight[deploy_hash] == pre.in_flight[deploy_hash] - 1,
{
}

/// When the last fetch of a deploy has failed, the first block that misses it and has another source has
/// it fetched from that source, which is then used up. The blocks before it that miss it are not valid,
/// with everybody answered; those behind it, and all that do not miss it, stay as they are.
pub proof fn law_next_source_is_tried<T: BlockLike, I>(
    pre: crate::block_validator::ValidatorModel<T::V, I>,
    deploy_hash: DeployHash,
    post: crate::block_validator::ValidatorModel<T::V, I>,
    effects: Seq<crate::block_validator::EffectModel<T::V, I>>,
    first: int,
)
    requires
        crate::block_validator::handled(pre, Event::<T, I>::DeployMissing(deploy_hash), post, effects),
        crate::block_validator::keyed_counter::count_of(pre.in_flight, deploy_hash) <= 1,
        0 <= first < pre.states.len(),
        pre.states[first].1.missing.contains(deploy_hash),
        pre.states[first].1.sources.len() > 0,
        forall|i: int|
            0 <= i < first && #[trigger] pre.states[i].1.missing.contains(deploy_hash) ==> pre.states[i].1.sources.len() == 0,
    ensures
        post.in_flight == pre.in_flight,
        effects.len() > 0,
        effects.last() == (crate::block_validator::EffectModel::<T::V, I>::FetchDeploy {
            deploy_hash,
            sender: pre.states[first].1.sources[0],
        }),
        forall|e: int| 0 <= e < effects.len() - 1 ==> #[trigger] effects[e] is Respond,
        exists|j: int|
            {
                &&& 0 <= j < post.states.len()
                &&& (#[trigger] post.states[j]).0 == pre.states[first].0
                &&& post.states[j].1.sources == pre.states[first].1.sources.skip(1)
                &&& post.states[j].1.missing == pre.states[first].1.missing
                &&& post.states[j].1.responders == pre.states[first].1.responders
                &&& post.states[j].1.appendable == pre.states[first].1.appendable
            },
        forall|i: int| first < i < pre.states.len() ==> post.states.contains(#[trigger] pre.states[i]),
        forall|i: int|
            0 <= i < first && !(#[trigger] pre.states[i]).1.missing.contains(deploy_hash) ==> post.states.contains(pre.states[i]),
        forall|i: int, r: int|
            0 <= i < first && pre.states[i].1.missing.contains(deploy_hash) && 0 <= r < pre.states[i].1.responders.len()
                ==> effects.contains(
                crate::block_validator::EffectModel::<T::V, I>::Respond {
                    responder: #[trigger] pre.states[i].1.responders[r],
                    valid: false,
                    block: pre.states[i].0,
                },
            ),
{
    lemma_tried(pre.states, deploy_hash, first, pre.states.len() as int);
    assert(pre.states.take(pre.states.len() as int) =~= pre.states);
    let used = crate::block_validator::StateModel { sources: pre.states[first].1.sources.skip(1), ..pre.states[first].1 };
    let j = choose|j: int| 0 <= j < post.states.len() && #[trigger] post.states[j] == (pre.states[first].0, used);
    assert(post.states[j].1.sources == pre.states[first].1.sources.skip(1));
}

proof fn lemma_tried<K, I>(states: Seq<(K, crate::block_validator::StateModel<I>)>, hash: DeployHash, first: int, n: int)
    requires
        0 <= first < n <= states.len(),
        states[first].1.missing.contains(hash),
        states[first].1.sources.len() > 0,
        forall|i: int| 0 <= i < first && #[trigger] states[i].1.missing.contains(hash) ==> states[i].1.sources.len() == 0,
    ensures
        ({
            let (kept, effects, retried) = crate::block_validator::missing_sweep(states.take(n), hash);
            let used = crate::block_validator::StateModel { sources: states[first].1.sources.skip(1), ..states[first].1 };
            &&& retried
            &&& effects.len() > 0
            &&& effects.last() == (crate::block_validator::EffectModel::<K, I>::FetchDeploy {
                deploy_hash: hash,
                sender: states[first].1.sources[0],
            })
            &&& forall|e: int| 0 <= e < effects.len() - 1 ==> #[trigger] effects[e] is Respond
            &&& exists|j: int| 0 <= j < kept.len() && #[trigger] kept[j] == (states[first].0, used)
            &&& forall|i: int| first < i < n ==> kept.contains(#[trigger] states[i])
            &&& forall|i: int| 0 <= i < first && !(#[trigger] states[i]).1.missing.contains(hash) ==> kept.contains(states[i])
            &&& forall|i: int, r: int|
                0 <= i < first && states[i].1.missing.contains(hash) && 0 <= r < states[i].1.responders.len() ==> effects.contains(
                    crate::block_validator::EffectModel::<K, I>::Respond {
                        responder: #[trigger] states[i].1.responders[r],
                        valid: false,
                        block: states[i].0,
                    },
                )
        }),
    decreases n,
{
    let all = states.take(n);
    assert(all.drop_last() =~= states.take(n - 1));
    assert(all.last() == states[n - 1]);
    let (kept, effects, retried) = crate::block_validator::missing_sweep(all, hash);
    let (before, earlier, tried) = crate::block_validator::missing_sweep(states.take(n - 1), hash);
    if first < n - 1 {
        lemma_tried(states, hash, first, n - 1);
        assert(kept == before.push(states[n - 1]));
        assert forall|i: int| first < i < n implies kept.contains(#[trigger] states[i]) by {
            if i < n - 1 {
                let j = before.index_of(states[i]);
                assert(kept[j] == states[i]);
            } else {
                assert(kept[before.len() as int] == states[i]);
            }
        }
        assert forall|i: int| 0 <= i < first && !(#[trigger] states[i]).1.missing.contains(hash) implies kept.contains(states[i]) by {
            let j = before.index_of(states[i]);
            assert(kept[j] == states[i]);
        }
        let used = crate::block_validator::StateModel { sources: states[first].1.sources.skip(1), ..states[first].1 };
        let j = choose|j: int| 0 <= j < before.len() && #[trigger] before[j] == (states[first].0, used);
        assert(kept[j] == (states[first].0, used));
    } else {
        lemma_untried(states, hash, n - 1);
        let used = crate::block_validator::StateModel { sources: states[first].1.sources.skip(1), ..states[first].1 };
        assert(kept == before.push((states[first].0, used)));
        assert(kept[before.len() as int] == (states[first].0, used));
        assert forall|i: int, r: int|
            0 <= i < first && states[i].1.missing.contains(hash) && 0 <= r < states[i].1.responders.len() implies effects.contains(
            crate::block_validator::EffectModel::<K, I>::Respond {
                responder: #[trigger] states[i].1.responders[r],
                valid: false,
                block: states[i].0,
            },
        ) by {
            let answer = crate::block_validator::EffectModel::<K, I>::Respond {
                responder: states[i].1.responders[r],
                valid: false,
                block: states[i].0,
            };
            assert(earlier.contains(answer));
            let j = earlier.index_of(answer);
            assert(effects[j] == answer);
        }
        assert forall|i: int| 0 <= i < first && !(#[trigger] states[i]).1.missing.contains(hash) implies kept.contains(states[i]) by {
            let j = before.index_of(states[i]);
            assert(kept[j] == states[i]);
        }
    }
}

proof fn lemma_untried<K, I>(states: Seq<(K, crate::block_validator::StateModel<I>)>, hash: DeployHash, n: int)
    requires
        0 <= n <= states.len(),
        forall|i: int| 0 <= i < n && #[trigger] states[i].1.missing.contains(hash) ==> states[i].1.sources.len() == 0,
    ensures
        ({
            let (kept, effects, retried) = crate::block_validator::missing_sweep(states.take(n), hash);
            &&& !retried
            &&& forall|e: int| 0 <= e < effects.len() ==> #[trigger] effects[e] is Respond
            &&& forall|i: int| 0 <= i < n && !(#[trigger] states[i]).1.missing.contains(hash) ==> kept.contains(states[i])
            &&& forall|j: int| 0 <= j < kept.len() ==> !(#[trigger] kept[j]).1.missing.contains(hash)
            &&& forall|i: int, r: int|
                0 <= i < n && states[i].1.missing.contains(hash) && 0 <= r < states[i].1.responders.len() ==> effects.contains(
                    crate::block_validator::EffectModel::<K, I>::Respond {
                        responder: #[trigger] states[i].1.responders[r],
                        valid: false,
                        block: states[i].0,
                    },
                )
        }),
    decreases n,
{
    let all = states.take(n);
    if n > 0 {
        assert(all.drop_last() =~= states.take(n - 1));
        assert(all.last() == states[n - 1]);
        let (kept, effects, retried) = crate::block_validator::missing_sweep(all, hash);
        let (before, earlier, tried) = crate::block_validator::missing_sweep(states.take(n - 1), hash);
        lemma_untried(states, hash, n - 1);
        let last = states[n - 1];
        let told = crate::block_validator::answers::<K, I>(last.1.responders, false, last.0);
        assert(states[n - 1].1.missing.contains(hash) ==> states[n - 1].1.sources.len() == 0);
        assert forall|i: int| 0 <= i < n && !(#[trigger] states[i]).1.missing.contains(hash) implies kept.contains(states[i]) by {
            if i < n - 1 {
                let j = before.index_of(states[i]);
                assert(kept[j] == states[i]);
            } else {
                assert(kept[before.len() as int] == states[i]);
            }
        }
        assert forall|i: int, r: int|
            0 <= i < n && states[i].1.missing.contains(hash) && 0 <= r < states[i].1.responders.len() implies effects.contains(
            crate::block_validator::EffectModel::<K, I>::Respond {
                responder: #[trigger] states[i].1.responders[r],
                valid: false,
                block: states[i].0,
            },
        ) by {
            let answer = crate::block_validator::EffectModel::<K, I>::Respond {
                responder: states[i].1.responders[r],
                valid: false,
                block: states[i].0,
            };
            if i < n - 1 {
                assert(earlier.contains(answer));
                let j = earlier.index_of(answer);
                assert(effects[j] == answer);
            } else {
                assert(told[r] == answer);
                assert(effects[earlier.len() + r] == answer);
            }
        }
    }
}

/// When the last fetch of a deploy has failed and no block that misses it has another source, all of them
/// are not valid, with everybody who asked answered, and all others stay.
pub proof fn law_missing_deploy_spoils_blocks<T: BlockLike, I>(
    pre: crate::block_validator::ValidatorModel<T::V, I>,
    deploy_hash: DeployHash,
    post: crate::block_validator::ValidatorModel<T::V, I>,
    effects: Seq<crate::block_validator::EffectModel<T::V, I>>,
    i: int,
    r: int,
)
    requires
        crate::block_validator::handled(pre, Event::<T, I>::DeployMissing(deploy_hash), post, effects),
        crate::block_validator::keyed_counter::count_of(pre.in_flight, deploy_hash) <= 1,
        forall|k: int|
            0 <= k < pre.states.len() && #[trigger] pre.states[k].1.missing.contains(deploy_hash) ==> pre.states[k].1.sources.len() == 0,
        0 <= i < pre.states.len(),
        0 <= r < pre.states[i].1.responders.len(),
    ensures
        pre.states[i].1.missing.contains(deploy_hash) ==> effects.contains(
            crate::block_validator::EffectModel::<T::V, I>::Respond {
                responder: pre.states[i].1.responders[r],
                valid: false,
                block: pre.states[i].0,
            },
        ),
        !pre.states[i].1.missing.contains(deploy_hash) ==> post.states.contains(pre.states[i]),
        forall|j: int| 0 <= j < post.states.len() ==> !(#[trigger] post.states[j]).1.missing.contains(deploy_hash),
        forall|e: int| 0 <= e < effects.len() ==> #[trigger] effects[e] is Respond,
{
    lemma_untried(pre.states, deploy_hash, pre.states.len() as int);
    assert(pre.states.take(pre.states.len() as int) =~= pre.states);
}

/// A deploy that was fetched counts as found, as what it was converted to, wherever it came from; one that
/// could not be converted does not count as missing, and one that was not fetched does.
pub proof fn law_fetched_deploys<T: BlockLike, I>(deploy_hash: DeployHash, fetched: Option<DeployType>, deploy_type: DeployType, peer: I)
    ensures
        crate::block_validator::event_for_fetched::<T, I>(deploy_hash, Some(FetchResult::FromStorage(fetched)))
            == crate::block_validator::event_for_fetched::<T, I>(deploy_hash, Some(FetchResult::FromPeer(fetched, peer))),
        crate::block_validator::event_for_fetched::<T, I>(deploy_hash, Some(FetchResult::FromPeer(Some(deploy_type), peer))) == (
        Event::<T, I>::DeployFound { deploy_hash, deploy_type }),
        crate::block_validator::event_for_fetched::<T, I>(deploy_hash, Some(FetchResult::FromPeer(None, peer)))
            == Event::<T, I>::CannotConvertDeploy(deploy_hash),
        crate::block_validator::event_for_fetched::<T, I>(deploy_hash, None) == Event::<T, I>::DeployMissing(deploy_hash),
{
}

/// A block of which nothing is missing any longer is valid at once.
pub proof fn law_complete_block_is_valid<T: BlockLike, I>(
    pre: crate::block_validator::ValidatorModel<T::V, I>,
    request: BlockValidationRequest<T, I>,
    post: crate::block_validator::ValidatorModel<T::V, I>,
    effects: Seq<crate::block_validator::EffectModel<T::V, I>>,
    i: int,
)
    requires
        crate::block_validator::handled(pre, Event::Request(request), post, effects),
        crate::collections::keys_distinct(pre.states),
        T::deploys_of(request.block@).no_duplicates(),
        T::deploys_of(request.block@).len() > 0,
        0 <= i < pre.states.len(),
        pre.states[i].0 == request.block@,
        pre.states[i].1.missing == Set::<DeployHash>::empty(),
    ensures
        post == pre,
        effects.len() == 1,
        effects[0] == (crate::block_validator::EffectModel::<T::V, I>::Respond {
            responder: request.responder,
            valid: true,
            block: request.block@,
        }),
{
    assert(crate::block_validator::has_block(pre.states, request.block@));
    let k = choose|k: int|
        {
            &&& 0 <= k < pre.states.len()
            &&& (#[trigger] pre.states[k]).0 == request.block@
            &&& if pre.states[k].1.missing == Set::<DeployHash>::empty() {
                post == pre && effects == seq![
                    crate::block_validator::EffectModel::<T::V, I>::Respond {
                        responder: request.responder,
                        valid: true,
                        block: request.block@,
                    },
                ]
            } else {
                let state = pre.states[k].1;
                let waiting = crate::block_validator::StateModel { responders: state.responders.push(request.responder), ..state };
                &&& post == (crate::block_validator::ValidatorModel {
                    states: pre.states.update(k, (request.block@, waiting.with_source(request.sender))),
                    ..pre
                })
                &&& effects == Seq::<crate::block_validator::EffectModel<T::V, I>>::empty()
            }
        };
    assert(k == i);
}

/// No event changes the rules, and each outcome of a fetch ends one fetch of that deploy and none of any
/// other, but where another source is tried.
pub proof fn law_fetches_end<T: BlockLike, I>(
    pre: crate::block_validator::ValidatorModel<T::V, I>,
    event: Event<T, I>,
    post: crate::block_validator::ValidatorModel<T::V, I>,
    effects: Seq<crate::block_validator::EffectModel<T::V, I>>,
    hash: DeployHash,
    other: DeployHash,
)
    requires
        crate::block_validator::handled(pre, event, post, effects),
        match event {
            Event::DeployFound { deploy_hash, .. } => deploy_hash == hash,
            Event::CannotConvertDeploy(deploy_hash) => deploy_hash == hash,
            Event::DeployMissing(deploy_hash) => deploy_hash == hash,
            Event::Request(_) => false,
        },
        pre.in_flight.contains_key(hash),
        pre.in_flight[hash] > 0,
        other != hash,
    ensures
        post.deploy_config == pre.deploy_config,
        post.in_flight.contains_key(other) == pre.in_flight.contains_key(other),
        pre.in_flight.contains_key(other) ==> post.in_flight[other] == pre.in_flight[other],
        !(event is DeployMissing) ==> (if pre.in_flight[hash] == 1 {
            !post.in_flight.contains_key(hash)
        } else {
            post.in_flight.contains_key(hash) && post.in_flight[hash] == pre.in_flight[hash] - 1
        }),
{
}

} // verus!
