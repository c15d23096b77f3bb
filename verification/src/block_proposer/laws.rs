//! What the block proposer does with deploys, blocks and requests.

use crate::block_proposer::{BlockHeight, Effect, Event, ListForInclusionRequest};
use crate::deploy::{DeployConfig, DeployHeader};
use crate::hash::DeployHash;
use crate::timestamp::Timestamp;
use crate::types::ProtoBlock;
use std::rc::Rc;
use vstd::prelude::*;

verus! {

/// What is proposed for a block is pending under its hash. It was made before the block and has not
/// expired, it lives no longer and has no more dependencies than allowed, and every single dependency is
/// in an earlier block, but it is not in one itself. Nothing is proposed twice, and no more than a block
/// can have.
pub proof fn law_proposed_keep_the_rules(
    s: crate::block_proposer::StateModel,
    config: DeployConfig,
    block_timestamp: Timestamp,
    past_deploys: Set<DeployHash>,
    i: int,
)
    requires
        0 <= i < s.proposed(config, block_timestamp, past_deploys).len(),
        crate::collections::keys_distinct(s.pending),
    ensures
        s.proposed(config, block_timestamp, past_deploys).len() <= config.block_max_deploy_count,
        s.proposed(config, block_timestamp, past_deploys).no_duplicates(),
        ({
            let hash = s.proposed(config, block_timestamp, past_deploys)[i];
            &&& !past_deploys.contains(hash)
            &&& !s.finalized.contains_key(hash)
            &&& exists|j: int|
                {
                    &&& 0 <= j < s.pending.len()
                    &&& (#[trigger] s.pending[j]).0 == hash
                    &&& s.pending[j].1.ttl.0 <= config.max_ttl.0
                    &&& s.pending[j].1.timestamp.0 <= block_timestamp.0
                    &&& s.pending[j].1.timestamp.0 + s.pending[j].1.ttl.0 >= block_timestamp.0
                    &&& s.pending[j].1.dependencies@.len() <= config.max_dependencies
                    &&& forall|k: int|
                        0 <= k < s.pending[j].1.dependencies@.len() ==> past_deploys.contains(
                            #[trigger] s.pending[j].1.dependencies@[k],
                        ) || s.finalized.contains_key(s.pending[j].1.dependencies@[k])
                }
        }),
{
    broadcast use vstd::seq_lib::group_filter_ensures;

    let p = s.eligible(config, block_timestamp, past_deploys);
    let q = crate::collections::on_entry(p);
    let all = s.pending.filter(q);
    let e = all[i];
    assert(all.contains(e));
    assert(q(e));
    s.pending.lemma_filter_contains_rev(q, e);
    let j = s.pending.index_of(e);
    assert(s.pending[j] == e);
    assert forall|k: int| 0 <= k < s.pending[j].1.dependencies@.len() implies past_deploys.contains(
        #[trigger] s.pending[j].1.dependencies@[k],
    ) || s.finalized.contains_key(s.pending[j].1.dependencies@[k]) by {
        assert(s.resolved(s.pending[j].1.dependencies@[k], past_deploys));
    }
    crate::collections::lemma_entry_map_filter(s.pending, p);
    assert forall|a: int, b: int|
        0 <= a < s.proposed(config, block_timestamp, past_deploys).len() && 0 <= b < s.proposed(
            config,
            block_timestamp,
            past_deploys,
        ).len() && a != b implies s.proposed(config, block_timestamp, past_deploys)[a] != s.proposed(
        config,
        block_timestamp,
        past_deploys,
    )[b] by {
        if a < b {
            assert(all[a].0 != all[b].0);
        } else {
            assert(all[b].0 != all[a].0);
        }
    }
}

/// A pending deploy that keeps all rules at the time of a block, with every dependency in an earlier
/// block and not in one itself, is proposed, unless as many as a block can have are.
pub proof fn law_keeping_the_rules_is_enough(
    s: crate::block_proposer::StateModel,
    config: DeployConfig,
    block_timestamp: Timestamp,
    past_deploys: Set<DeployHash>,
    j: int,
)
    requires
        0 <= j < s.pending.len(),
        !past_deploys.contains(s.pending[j].0),
        !s.finalized.contains_key(s.pending[j].0),
        s.pending[j].1.ttl.0 <= config.max_ttl.0,
        s.pending[j].1.timestamp.0 <= block_timestamp.0,
        s.pending[j].1.timestamp.0 + s.pending[j].1.ttl.0 >= block_timestamp.0,
        s.pending[j].1.dependencies@.len() <= config.max_dependencies,
        forall|k: int|
            0 <= k < s.pending[j].1.dependencies@.len() ==> past_deploys.contains(#[trigger] s.pending[j].1.dependencies@[k])
                || s.finalized.contains_key(s.pending[j].1.dependencies@[k]),
    ensures
        s.proposed(config, block_timestamp, past_deploys).contains(s.pending[j].0) || s.proposed(
            config,
            block_timestamp,
            past_deploys,
        ).len() == config.block_max_deploy_count,
{
    broadcast use vstd::seq_lib::group_filter_ensures;

    let p = s.eligible(config, block_timestamp, past_deploys);
    let q = crate::collections::on_entry(p);
    let all = s.pending.filter(q);
    assert(q(s.pending[j]));
    assert(all.contains(s.pending[j]));
    let i = all.index_of(s.pending[j]);
    if i < s.proposed(config, block_timestamp, past_deploys).len() {
        assert(s.proposed(config, block_timestamp, past_deploys)[i] == s.pending[j].0);
    }
}

/// Once the rules are known, the one who asked gets an answer that is what is proposed for that time and
/// those past deploys.
pub proof fn law_answer_is_the_proposal(
    m: crate::block_proposer::ProposerModel,
    config: DeployConfig,
    version: crate::version::Version,
    request: ListForInclusionRequest,
    effects: Seq<Effect>,
    now: Timestamp,
)
    requires
        m.event_effects(
            Event::GetChainspecResult { maybe_deploy_config: Some(config), chainspec_version: version, request },
            effects,
        ),
    ensures
        effects.len() == 1,
        effects[0] matches Effect::Respond { responder, deploys } && responder == request.responder && deploys.seq() == m.state.proposed(
            config,
            request.current_instant,
            request.past_deploys@,
        ),
        m.after_event(
            Event::GetChainspecResult { maybe_deploy_config: Some(config), chainspec_version: version, request },
            now,
        ).state == m.state,
        m.after_event(
            Event::GetChainspecResult { maybe_deploy_config: Some(config), chainspec_version: version, request },
            now,
        ).chainspecs[version@] == config,
{
}

/// When deploys are finalized, those of them that were pending are finalized with their headers and no
/// longer pending; all other pending deploys stay pending, and all others that were finalized stay so.
pub proof fn law_finalizing_moves_deploys(
    s: crate::block_proposer::StateModel,
    deploys: Seq<DeployHash>,
    hash: DeployHash,
)
    requires
        crate::collections::keys_distinct(s.pending),
    ensures
        ({
            let after = s.with_finalized(deploys);
            let was = exists|i: int| 0 <= i < s.pending.len() && (#[trigger] s.pending[i]).0 == hash;
            let is = exists|i: int| 0 <= i < after.pending.len() && (#[trigger] after.pending[i]).0 == hash;
            &&& is == (was && !deploys.contains(hash))
            &&& after.finalized.contains_key(hash) == (s.finalized.contains_key(hash) || (was && deploys.contains(hash)))
            &&& forall|i: int|
                0 <= i < s.pending.len() && (#[trigger] s.pending[i]).0 == hash && deploys.contains(hash)
                    ==> after.finalized[hash] == s.pending[i].1
            &&& s.finalized.contains_key(hash) && !was ==> after.finalized[hash] == s.finalized[hash]
            &&& after.next_finalized == s.next_finalized
            &&& after.finalization_queue == s.finalization_queue
            &&& after.request_queue == s.request_queue
        }),
{
    let after = s.with_finalized(deploys);
    crate::collections::lemma_entry_map_filter(s.pending, crate::block_proposer::not_among(deploys));
    let before_map = crate::collections::entry_map(s.pending);
    let after_map = crate::collections::entry_map(after.pending);
    assert(before_map.contains_key(hash) == crate::collections::has_key(s.pending, hash));
    assert(after_map.contains_key(hash) == crate::collections::has_key(after.pending, hash));
    assert forall|i: int|
        0 <= i < s.pending.len() && (#[trigger] s.pending[i]).0 == hash && deploys.contains(hash) implies after.finalized[hash]
        == s.pending[i].1 by {
        crate::collections::lemma_entry_map_at(s.pending, i);
    }
}

/// A deploy is buffered exactly if it has not expired and is in no finalized block; a later one with the
/// same hash takes its place, and no other deploy is touched.
pub proof fn law_buffered_deploy(
    m: crate::block_proposer::ProposerModel,
    hash: DeployHash,
    header: Rc<DeployHeader>,
    now: Timestamp,
    other: DeployHash,
)
    requires
        crate::collections::keys_distinct(m.state.pending),
        other != hash,
    ensures
        ({
            let after = m.after_event(Event::Buffer { hash, header }, now);
            let pending = crate::collections::entry_map(m.state.pending);
            let pending_after = crate::collections::entry_map(after.state.pending);
            let fresh = header.timestamp.0 + header.ttl.0 >= now.0 && !m.state.finalized.contains_key(hash);
            &&& fresh ==> pending_after.contains_key(hash) && pending_after[hash] == header
            &&& !fresh ==> after == m
            &&& pending_after.contains_key(other) == pending.contains_key(other)
            &&& pending.contains_key(other) ==> pending_after[other] == pending[other]
            &&& after.state.finalized == m.state.finalized
            &&& after.state.next_finalized == m.state.next_finalized
            &&& after.state.finalization_queue == m.state.finalization_queue
            &&& after.state.request_queue == m.state.request_queue
            &&& after.chainspecs == m.chainspecs
        }),
        forall|effects: Seq<Effect>|
            #[trigger] m.event_effects(Event::Buffer { hash, header }, effects) ==> effects.len() == 0,
{
    if crate::collections::has_key(m.state.pending, hash) {
        let i = crate::collections::key_index(m.state.pending, hash);
        assert(m.state.pending[i].0 == hash);
        crate::collections::lemma_entry_map_update(m.state.pending, i, header);
    } else {
        crate::collections::lemma_entry_map_push(m.state.pending, hash, header);
    }
}

/// Pruning takes away exactly the deploys whose time is over, pending or finalized, and has itself
/// called again later.
pub proof fn law_pruning_takes_the_expired(
    m: crate::block_proposer::ProposerModel,
    now: Timestamp,
    hash: DeployHash,
    effects: Seq<Effect>,
)
    requires
        crate::collections::keys_distinct(m.state.pending),
        m.event_effects(Event::BufferPrune, effects),
    ensures
        ({
            let after = m.after_event(Event::BufferPrune, now).state;
            let pending = crate::collections::entry_map(m.state.pending);
            let pending_after = crate::collections::entry_map(after.pending);
            &&& pending_after.contains_key(hash) == (pending.contains_key(hash) && pending[hash].timestamp.0 + pending[hash].ttl.0
                >= now.0)
            &&& pending_after.contains_key(hash) ==> pending_after[hash] == pending[hash]
            &&& after.finalized.contains_key(hash) == (m.state.finalized.contains_key(hash)
                && m.state.finalized[hash].timestamp.0 + m.state.finalized[hash].ttl.0 >= now.0)
            &&& after.finalized.contains_key(hash) ==> after.finalized[hash] == m.state.finalized[hash]
            &&& after.next_finalized == m.state.next_finalized
            &&& after.finalization_queue == m.state.finalization_queue
            &&& after.request_queue == m.state.request_queue
        }),
        m.after_event(Event::BufferPrune, now).chainspecs == m.chainspecs,
        effects.len() == 1,
        effects[0] matches Effect::SetTimeout(delay) && delay.0 == 10_000,
{
    crate::collections::lemma_entry_map_filter(m.state.pending, crate::block_proposer::alive(now));
}

/// A request for a block whose predecessors are not all known to be finalized waits, without any effect,
/// behind those that wait for the same height; any other is taken up at once.
pub proof fn law_requests_wait_for_their_height(
    m: crate::block_proposer::ProposerModel,
    request: ListForInclusionRequest,
    now: Timestamp,
    effects: Seq<Effect>,
)
    requires
        m.event_effects(Event::Request(request), effects),
    ensures
        ({
            let after = m.after_event(Event::Request(request), now).state;
            let h = request.next_finalized;
            &&& h > m.state.next_finalized ==> {
                &&& effects.len() == 0
                &&& after.request_queue.contains_key(h)
                &&& after.request_queue[h] == (if m.state.request_queue.contains_key(h) {
                    m.state.request_queue[h]
                } else {
                    Seq::empty()
                }).push(request)
                &&& after.pending == m.state.pending
                &&& after.finalized == m.state.finalized
                &&& after.next_finalized == m.state.next_finalized
                &&& after.finalization_queue == m.state.finalization_queue
                &&& forall|other: u64|
                    other != h ==> #[trigger] after.request_queue.contains_key(other) == m.state.request_queue.contains_key(other) && (
                    m.state.request_queue.contains_key(other) ==> after.request_queue[other] == m.state.request_queue[other])
            }
            &&& h <= m.state.next_finalized ==> after == m.state && effects.len() == 1 && takes_up(m, effects[0], request)
        }),
        m.after_event(Event::Request(request), now).chainspecs == m.chainspecs,
{
}

/// The effect takes up a request: it goes on with the rules of version 1.0.0 if they are known, and asks
/// for them otherwise.
pub open spec fn takes_up(m: crate::block_proposer::ProposerModel, effect: Effect, request: ListForInclusionRequest) -> bool {
    match effect {
        Effect::ChainspecCached { deploy_config, chainspec_version, request: r } => {
            &&& r == request
            &&& chainspec_version.major == 1 && chainspec_version.minor == 0 && chainspec_version.patch == 0
            &&& chainspec_version.pre is None
            &&& m.chainspecs.contains_key(chainspec_version@)
            &&& deploy_config == m.chainspecs[chainspec_version@]
        },
        Effect::GetChainspec { chainspec_version, request: r } => {
            &&& r == request
            &&& chainspec_version.major == 1 && chainspec_version.minor == 0 && chainspec_version.patch == 0
            &&& chainspec_version.pre is None
            &&& !m.chainspecs.contains_key(chainspec_version@)
        },
        _ => false,
    }
}

/// News of a block whose predecessors are not all known yet is kept for later and changes nothing else.
/// News of the next block finalizes its deploys, moves on to the height behind it, and takes up exactly
/// the requests that waited for that height, in order, as long as no later block waits.
pub proof fn law_blocks_are_followed(
    m: crate::block_proposer::ProposerModel,
    block: ProtoBlock,
    height: BlockHeight,
    now: Timestamp,
    effects: Seq<Effect>,
    hash: DeployHash,
)
    requires
        m.event_effects(Event::FinalizedProtoBlock { block, height }, effects),
        crate::collections::keys_distinct(m.state.pending),
        height < u64::MAX,
    ensures
        ({
            let after = m.after_event(Event::FinalizedProtoBlock { block, height }, now).state;
            let next = (height + 1) as u64;
            let was = exists|i: int| 0 <= i < m.state.pending.len() && (#[trigger] m.state.pending[i]).0 == hash;
            &&& height > m.state.next_finalized ==> {
                &&& effects.len() == 0
                &&& after.next_finalized == m.state.next_finalized
                &&& after.pending == m.state.pending
                &&& after.finalized == m.state.finalized
                &&& after.finalization_queue.contains_key(height)
                &&& after.finalization_queue[height] == block.deploys@
            }
            &&& height <= m.state.next_finalized && !m.state.finalization_queue.contains_key(next) ==> {
                &&& after.next_finalized == height + 1
                &&& after.finalized.contains_key(hash) == (m.state.finalized.contains_key(hash) || (was && block.deploys@.contains(
                    hash,
                )))
                &&& !after.request_queue.contains_key(next)
                &&& m.state.request_queue.contains_key(next) ==> {
                    &&& effects.len() == m.state.request_queue[next].len()
                    &&& forall|i: int|
                        0 <= i < effects.len() ==> takes_up(m, #[trigger] effects[i], m.state.request_queue[next][i])
                }
                &&& !m.state.request_queue.contains_key(next) ==> effects.len() == 0
                &&& after.finalization_queue == m.state.finalization_queue
                &&& forall|other: u64|
                    other != next ==> #[trigger] after.request_queue.contains_key(other) == m.state.request_queue.contains_key(other)
                        && (m.state.request_queue.contains_key(other) ==> after.request_queue[other] == m.state.request_queue[other])
            }
            &&& height > m.state.next_finalized ==> after.request_queue == m.state.request_queue && forall|other: u64|
                other != height ==> #[trigger] after.finalization_queue.contains_key(other) == m.state.finalization_queue.contains_key(
                    other,
                ) && (m.state.finalization_queue.contains_key(other) ==> after.finalization_queue[other]
                    == m.state.finalization_queue[other])
        }),
        m.after_event(Event::FinalizedProtoBlock { block, height }, now).chainspecs == m.chainspecs,
{
    let next = (height + 1) as u64;
    law_finalizing_moves_deploys(m.state, block.deploys@, hash);
    if height <= m.state.next_finalized && !m.state.finalization_queue.contains_key(next) {
        let stepped = m.state.with_block(height, block.deploys@);
        assert(stepped.caught_up(height) == stepped);
        assert(stepped.caught_up_requests(height) =~= Seq::empty());
        assert(m.state.notified_requests(height, block.deploys@) =~= m.state.waiting(next));
    }
}

/// A block whose news came early is handled right behind the block that it waited for, as if its news came
/// only then, and so are the requests that wait for the height behind it.
pub proof fn law_waiting_block_follows(s: crate::block_proposer::StateModel, height: BlockHeight, deploys: Seq<DeployHash>)
    requires
        height < u64::MAX - 1,
        height <= s.next_finalized,
        s.finalization_queue.contains_key((height + 1) as u64),
    ensures
        ({
            let next = (height + 1) as u64;
            let early = crate::block_proposer::StateModel { finalization_queue: s.finalization_queue.remove(next), ..s };
            let queued = s.finalization_queue[next];
            &&& s.notified(height, deploys) == early.notified(height, deploys).notified(next, queued)
            &&& s.notified_requests(height, deploys) == early.notified_requests(height, deploys) + early.notified(
                height,
                deploys,
            ).notified_requests(next, queued)
        }),
{
    let next = (height + 1) as u64;
    let early = crate::block_proposer::StateModel { finalization_queue: s.finalization_queue.remove(next), ..s };
    let queued = s.finalization_queue[next];
    let stepped = early.with_block(height, deploys);
    assert(!stepped.finalization_queue.contains_key(next));
    assert(stepped.caught_up(height) == stepped);
    assert(stepped.caught_up_requests(height) =~= Seq::empty());
    let full = s.with_block(height, deploys);
    assert(full.finalization_queue.contains_key(next));
    assert(full.without_queued(next) =~= stepped);
    assert(early.notified(height, deploys) == stepped);
    assert(early.notified_requests(height, deploys) =~= s.waiting(next));
    assert(full.waiting((next + 1) as u64) == stepped.waiting((next + 1) as u64));
}

/// What is proposed comes in the order in which it is pending.
pub proof fn law_proposed_in_order(
    s: crate::block_proposer::StateModel,
    config: DeployConfig,
    block_timestamp: Timestamp,
    past_deploys: Set<DeployHash>,
    i: int,
    j: int,
) -> (at: (int, int))
    requires
        0 <= i < j < s.proposed(config, block_timestamp, past_deploys).len(),
    ensures
        0 <= at.0 < at.1 < s.pending.len(),
        s.pending[at.0].0 == s.proposed(config, block_timestamp, past_deploys)[i],
        s.pending[at.1].0 == s.proposed(config, block_timestamp, past_deploys)[j],
{
    let q = crate::collections::on_entry(s.eligible(config, block_timestamp, past_deploys));
    lemma_filter_order(s.pending, q, i, j)
}

proof fn lemma_filter_order<A>(s: Seq<A>, p: spec_fn(A) -> bool, i: int, j: int) -> (at: (int, int))
    requires
        0 <= i < j < s.filter(p).len(),
    ensures
        0 <= at.0 < at.1 < s.len(),
        s[at.0] == s.filter(p)[i],
        s[at.1] == s.filter(p)[j],
    decreases s.len(),
{
    reveal(Seq::filter);
    broadcast use vstd::seq_lib::group_filter_ensures;

    let front = s.drop_last();
    let kept = front.filter(p);
    if j < kept.len() {
        lemma_filter_order(front, p, i, j)
    } else {
        let e = kept[i];
        assert(kept.contains(e));
        front.lemma_filter_contains_rev(p, e);
        (front.index_of(e), s.len() - 1)
    }
}

} // verus!
