//! What storage answers, and what is loaded from it.

use crate::chainspec::Chainspec;
use crate::deploy::Deploy;
use crate::hash::DeployHash;
use crate::storage::{Answer, Effect, Event, StorageRequest, Value, WithBlockHeight};
use crate::timestamp::Timestamp;
use crate::types::{Block, ExecutionResult};
use crate::version::Version;
use std::rc::Rc;
use vstd::prelude::*;

verus! {

/// Reading changes nothing and finds exactly what is stored: a block under its hash, or under the one kept
/// for its height, its header, and a list of deploys or their headers, one answer for each hash in order.
pub proof fn law_reading<B: Value + WithBlockHeight, D: Value>(
    m: crate::storage::StorageModel<B, D>,
    request: StorageRequest<B, D>,
    after: crate::storage::StorageModel<B, D>,
    answer: Answer<B, D>,
)
    requires
        crate::storage::answers(m, request, after, answer),
    ensures
        match request {
            StorageRequest::GetBlock { block_hash } => after == m && (answer matches Answer::Block(found) && match found {
                Some(block) => m.blocks.contains_key(block_hash) && m.blocks[block_hash] == block,
                None => !m.blocks.contains_key(block_hash),
            }),
            StorageRequest::GetBlockAtHeight { height } => after == m && (answer matches Answer::Block(found) && match found {
                Some(block) => m.heights.contains_key(height) && m.blocks.contains_key(m.heights[height])
                    && m.blocks[m.heights[height]] == block,
                None => !m.heights.contains_key(height) || !m.blocks.contains_key(m.heights[height]),
            }),
            StorageRequest::GetBlockHeader { block_hash } => after == m && (answer matches Answer::BlockHeader(found) && match found {
                Some(header) => m.blocks.contains_key(block_hash) && m.blocks[block_hash].spec_header() == header,
                None => !m.blocks.contains_key(block_hash),
            }),
            StorageRequest::GetDeploys { deploy_hashes } => after == m && (answer matches Answer::Deploys(found) && found@.len()
                == deploy_hashes@.len() && forall|i: int|
                0 <= i < deploy_hashes@.len() ==> match #[trigger] found@[i] {
                    Some(deploy) => m.deploys.contains_key(deploy_hashes@[i]) && m.deploys[deploy_hashes@[i]] == deploy,
                    None => !m.deploys.contains_key(deploy_hashes@[i]),
                }),
            StorageRequest::GetDeployHeaders { deploy_hashes } => after == m && (answer matches Answer::DeployHeaders(found)
                && found@.len() == deploy_hashes@.len() && forall|i: int|
                0 <= i < deploy_hashes@.len() ==> match #[trigger] found@[i] {
                    Some(header) => m.deploys.contains_key(deploy_hashes@[i]) && m.deploys[deploy_hashes@[i]].spec_header() == header,
                    None => !m.deploys.contains_key(deploy_hashes@[i]),
                }),
            StorageRequest::GetDeployAndMetadata { deploy_hash } => after == m && (answer matches Answer::DeployAndMetadata(found)
                && match found {
                Some((deploy, metadata)) => {
                    &&& m.deploys.contains_key(deploy_hash)
                    &&& m.deploys[deploy_hash] == deploy
                    &&& m.results.contains_key(deploy_hash) ==> metadata.execution_results@ == m.results[deploy_hash]
                    &&& !m.results.contains_key(deploy_hash) ==> metadata.execution_results@ == Map::<B::Id, Rc<ExecutionResult>>::empty()
                },
                None => !m.deploys.contains_key(deploy_hash),
            }),
            StorageRequest::GetChainspec { version } => after == m && (answer matches Answer::Chainspec(found) && match found {
                Some(chainspec) => m.chainspecs.contains_key(version@) && m.chainspecs[version@] == chainspec,
                None => !m.chainspecs.contains_key(version@),
            }),
            _ => true,
        },
{
}

/// The highest block is the one kept for the highest of all heights.
pub proof fn law_highest_block<B: Value + WithBlockHeight, D: Value>(
    m: crate::storage::StorageModel<B, D>,
    after: crate::storage::StorageModel<B, D>,
    answer: Answer<B, D>,
    highest: u64,
)
    requires
        crate::storage::answers(m, StorageRequest::GetHighestBlock, after, answer),
        m.consistent(),
        m.heights.contains_key(highest),
        forall|h: u64| #[trigger] m.heights.contains_key(h) ==> h <= highest,
    ensures
        after == m,
        answer == Answer::<B, D>::Block(Some(m.blocks[m.heights[highest]])),
{
    assert(m.is_highest(highest));
}

/// What is written is found again under its name, unless something was there before, which then stays;
/// it is said whether there was, and nothing else changes.
pub proof fn law_writing<B: Value + WithBlockHeight, D: Value>(
    m: crate::storage::StorageModel<B, D>,
    block: Rc<B>,
    deploy: Rc<D>,
    with_block: crate::storage::StorageModel<B, D>,
    about_block: Answer<B, D>,
    with_deploy: crate::storage::StorageModel<B, D>,
    about_deploy: Answer<B, D>,
    other_block: B::Id,
    other_height: u64,
    other_deploy: D::Id,
)
    requires
        crate::storage::answers(m, StorageRequest::PutBlock { block }, with_block, about_block),
        crate::storage::answers(m, StorageRequest::PutDeploy { deploy }, with_deploy, about_deploy),
        m.blocks.contains_key(block.spec_id()) ==> m.heights.contains_key(block.spec_height()),
        other_block != block.spec_id(),
        other_height != block.spec_height(),
        other_deploy != deploy.spec_id(),
    ensures
        with_block.blocks.contains_key(block.spec_id()),
        !m.blocks.contains_key(block.spec_id()) ==> with_block.blocks[block.spec_id()] == block,
        with_block.heights.contains_key(block.spec_height()),
        !m.heights.contains_key(block.spec_height()) ==> with_block.heights[block.spec_height()] == block.spec_id(),
        m.heights.contains_key(block.spec_height()) ==> with_block.heights[block.spec_height()] == m.heights[block.spec_height()],
        about_block matches Answer::Stored(new) && new == !m.heights.contains_key(block.spec_height()),
        with_block.blocks.contains_key(other_block) == m.blocks.contains_key(other_block),
        m.blocks.contains_key(other_block) ==> with_block.blocks[other_block] == m.blocks[other_block],
        with_block.heights.contains_key(other_height) == m.heights.contains_key(other_height),
        m.heights.contains_key(other_height) ==> with_block.heights[other_height] == m.heights[other_height],
        with_block.deploys == m.deploys && with_block.results == m.results && with_block.chainspecs == m.chainspecs,
        with_deploy.deploys.contains_key(deploy.spec_id()),
        !m.deploys.contains_key(deploy.spec_id()) ==> with_deploy.deploys[deploy.spec_id()] == deploy,
        m.deploys.contains_key(deploy.spec_id()) ==> with_deploy.deploys[deploy.spec_id()] == m.deploys[deploy.spec_id()],
        about_deploy matches Answer::Stored(new) && new == !m.deploys.contains_key(deploy.spec_id()),
        with_deploy.deploys.contains_key(other_deploy) == m.deploys.contains_key(other_deploy),
        m.deploys.contains_key(other_deploy) ==> with_deploy.deploys[other_deploy] == m.deploys[other_deploy],
        with_deploy.blocks == m.blocks && with_deploy.heights == m.heights && with_deploy.results == m.results
            && with_deploy.chainspecs == m.chainspecs,
{
}

/// A chainspec is found again under its version, and the last one written counts.
pub proof fn law_chainspec_is_kept<B: Value + WithBlockHeight, D: Value>(
    m: crate::storage::StorageModel<B, D>,
    version: Version,
    chainspec: Rc<Chainspec>,
    after: crate::storage::StorageModel<B, D>,
    answer: Answer<B, D>,
    other: Version,
)
    requires
        crate::storage::answers(m, StorageRequest::PutChainspec { version, chainspec }, after, answer),
        other@ != version@,
    ensures
        answer is Done,
        after.chainspecs.contains_key(version@),
        after.chainspecs[version@] == chainspec,
        after.chainspecs.contains_key(other@) == m.chainspecs.contains_key(other@),
        m.chainspecs.contains_key(other@) ==> after.chainspecs[other@] == m.chainspecs[other@],
        after.blocks == m.blocks && after.heights == m.heights && after.deploys == m.deploys && after.results == m.results,
{
}

/// Every single result in a list is kept for its deploy and this block: the first one in the list, unless
/// one was there before, which then stays. Nothing is kept for any other deploy or block.
pub proof fn law_every_result_is_kept<B: Value + WithBlockHeight, D: Value>(
    m: crate::storage::StorageModel<B, D>,
    block_hash: B::Id,
    execution_results: Vec<(D::Id, Rc<ExecutionResult>)>,
    after: crate::storage::StorageModel<B, D>,
    answer: Answer<B, D>,
    i: int,
    id: D::Id,
    other: B::Id,
)
    requires
        crate::storage::answers(m, StorageRequest::PutExecutionResults { block_hash, execution_results }, after, answer),
        0 <= i < execution_results@.len(),
        forall|j: int| 0 <= j < i ==> (#[trigger] execution_results@[j]).0 != execution_results@[i].0,
        other != block_hash,
    ensures
        answer is Done,
        ({
            let d = execution_results@[i].0;
            let known = m.results.contains_key(d) && m.results[d].contains_key(block_hash);
            let listed = exists|j: int| 0 <= j < execution_results@.len() && (#[trigger] execution_results@[j]).0 == id;
            let before = m.results.contains_key(id);
            &&& after.results.contains_key(d)
            &&& after.results[d].contains_key(block_hash)
            &&& known ==> after.results[d][block_hash] == m.results[d][block_hash]
            &&& !known ==> after.results[d][block_hash] == execution_results@[i].1
            &&& after.results.contains_key(id) == (before || listed)
            &&& after.results.contains_key(id) ==> after.results[id].contains_key(other) == (before && m.results[id].contains_key(
                other,
            ))
            &&& after.results.contains_key(id) && before && m.results[id].contains_key(other) ==> after.results[id][other]
                == m.results[id][other]
            &&& !listed && before ==> after.results[id] == m.results[id]
        }),
        after.blocks == m.blocks && after.heights == m.heights && after.deploys == m.deploys && after.chainspecs == m.chainspecs,
{
    let results = execution_results@;
    let n = results.len() as int;
    assert(results.take(n) =~= results);
    lemma_results(m, block_hash, results, n, i, id, other);
}

proof fn lemma_results<B: Value + WithBlockHeight, D: Value>(
    m: crate::storage::StorageModel<B, D>,
    block_hash: B::Id,
    results: Seq<(D::Id, Rc<ExecutionResult>)>,
    n: int,
    i: int,
    id: D::Id,
    other: B::Id,
)
    requires
        0 <= n <= results.len(),
        0 <= i < results.len(),
        forall|j: int| 0 <= j < i ==> (#[trigger] results[j]).0 != results[i].0,
        other != block_hash,
    ensures
        ({
            let after = m.with_results(block_hash, results.take(n));
            let d = results[i].0;
            let known = m.results.contains_key(d) && m.results[d].contains_key(block_hash);
            let listed = exists|j: int| 0 <= j < n && (#[trigger] results[j]).0 == id;
            let before = m.results.contains_key(id);
            &&& known ==> after.results.contains_key(d) && after.results[d].contains_key(block_hash)
                && after.results[d][block_hash] == m.results[d][block_hash]
            &&& !known && i < n ==> after.results.contains_key(d) && after.results[d].contains_key(block_hash)
                && after.results[d][block_hash] == results[i].1
            &&& !known && i >= n ==> !(after.results.contains_key(d) && after.results[d].contains_key(block_hash))
            &&& after.results.contains_key(id) == (before || listed)
            &&& after.results.contains_key(id) ==> after.results[id].contains_key(other) == (before && m.results[id].contains_key(
                other,
            ))
            &&& after.results.contains_key(id) && before && m.results[id].contains_key(other) ==> after.results[id][other]
                == m.results[id][other]
            &&& !listed && before ==> after.results[id] == m.results[id]
            &&& after.blocks == m.blocks && after.heights == m.heights && after.deploys == m.deploys && after.chainspecs
                == m.chainspecs
        }),
    decreases n,
{
    let all = results.take(n);
    if n > 0 {
        lemma_results(m, block_hash, results, n - 1, i, id, other);
        assert(all.drop_last() =~= results.take(n - 1));
        assert(all.last() == results[n - 1]);
        let earlier = m.with_results(block_hash, results.take(n - 1));
        let after = m.with_results(block_hash, all);
        assert(after == earlier.with_result(results[n - 1].0, block_hash, results[n - 1].1));
        let listed = exists|j: int| 0 <= j < n && (#[trigger] results[j]).0 == id;
        let listed_before = exists|j: int| 0 <= j < n - 1 && (#[trigger] results[j]).0 == id;
        assert(listed == (listed_before || results[n - 1].0 == id));
        if n - 1 < i {
            assert(results[n - 1].0 != results[i].0);
        }
    }
}

/// A deploy that a peer asks for is sent to it if it is there; otherwise nothing happens.
pub proof fn law_peers_get_deploys<B: Value + WithBlockHeight, D: Value, I>(
    m: crate::storage::StorageModel<B, D>,
    deploy_hash: D::Id,
    peer: I,
    after: crate::storage::StorageModel<B, D>,
    effect: Effect<B, D, I>,
)
    requires
        crate::storage::handled(m, Event::GetDeployForPeer { deploy_hash, peer }, after, effect),
    ensures
        after == m,
        m.deploys.contains_key(deploy_hash) ==> (effect matches Effect::SendGetResponse { peer: to, deploy } && to == peer && deploy
            == m.deploys[deploy_hash]),
        !m.deploys.contains_key(deploy_hash) ==> effect is Nothing,
{
}

/// The recent blocks are those at the given height and below, one at each height, as far down as there is
/// a block that is not too old, and no further.
pub proof fn law_recent_blocks(m: crate::storage::StorageModel<Block, Deploy>, height: int, oldest: int, i: int)
    requires
        -1 <= height <= u64::MAX,
        0 <= i,
    ensures
        ({
            let blocks = crate::storage::recent_blocks(m, height, oldest);
            &&& blocks.len() <= height + 1
            &&& i < blocks.len() ==> {
                let h = (height - i) as u64;
                &&& m.heights.contains_key(h)
                &&& m.blocks.contains_key(m.heights[h])
                &&& m.blocks[m.heights[h]] == blocks[i]
                &&& blocks[i].header.timestamp.0 >= oldest
            }
            &&& blocks.len() <= height ==> {
                let next = (height - blocks.len()) as u64;
                !m.heights.contains_key(next) || !m.blocks.contains_key(m.heights[next])
                    || m.blocks[m.heights[next]].header.timestamp.0 < oldest
            }
        }),
    decreases height + 1,
{
    if height >= 0 {
        law_recent_blocks(
            m,
            height - 1,
            oldest,
            if i > 0 {
                i - 1
            } else {
                0
            },
        );
        let blocks = crate::storage::recent_blocks(m, height, oldest);
        let below = crate::storage::recent_blocks(m, height - 1, oldest);
        if blocks.len() > 0 {
            assert(blocks == seq![blocks[0]] + below);
            assert(height - blocks.len() == height - 1 - below.len());
        }
    }
}

/// A deploy counts as finalized exactly if it is stored and some recent block lists it.
pub proof fn law_finalized_in_recent_blocks(
    m: crate::storage::StorageModel<Block, Deploy>,
    height: int,
    oldest: int,
    hash: DeployHash,
)
    ensures
        ({
            let blocks = crate::storage::recent_blocks(m, height, oldest);
            let finalized = crate::storage::finalized_in(m, blocks);
            &&& finalized.contains_key(hash) == (m.deploys.contains_key(hash) && exists|i: int|
                0 <= i < blocks.len() && (#[trigger] blocks[i]).header.deploy_hashes@.contains(hash))
            &&& finalized.contains_key(hash) ==> finalized[hash] == m.deploys[hash].header
        }),
{
    let blocks = crate::storage::recent_blocks(m, height, oldest);
    if exists|i: int| 0 <= i < blocks.len() && (#[trigger] blocks[i]).header.deploy_hashes@.contains(hash) {
        let i = choose|i: int| 0 <= i < blocks.len() && (#[trigger] blocks[i]).header.deploy_hashes@.contains(hash);
        assert(crate::storage::deploys_in(&blocks[i]).contains(hash));
    }
    if exists|i: int| 0 <= i < blocks.len() && crate::storage::deploys_in(&#[trigger] blocks[i]).contains(hash) {
        let i = choose|i: int| 0 <= i < blocks.len() && crate::storage::deploys_in(&#[trigger] blocks[i]).contains(hash);
        assert(blocks[i].header.deploy_hashes@.contains(hash));
    }
}

/// A deploy is pending exactly if it stands in the list before the first one that has expired, and is not
/// finalized.
pub proof fn law_pending_before_the_first_expired(
    deploys: Seq<Rc<Deploy>>,
    finalized: Set<DeployHash>,
    current_instant: Timestamp,
    hash: DeployHash,
)
    ensures
        crate::storage::pending_of(deploys, finalized, current_instant).contains_key(hash) == (!finalized.contains(hash)
            && exists|i: int|
            {
                &&& 0 <= i < deploys.len()
                &&& (#[trigger] deploys[i]).hash == hash
                &&& forall|j: int|
                    0 <= j <= i ==> (#[trigger] deploys[j]).header.timestamp.0 + deploys[j].header.ttl.0 >= current_instant.0
            }),
        crate::storage::pending_of(deploys, finalized, current_instant).contains_key(hash) ==> exists|i: int|
            0 <= i < deploys.len() && (#[trigger] deploys[i]).hash == hash && deploys[i].header == crate::storage::pending_of(
                deploys,
                finalized,
                current_instant,
            )[hash],
{
    let n = crate::storage::before_expired(deploys, current_instant) as int;
    let pending = crate::storage::pending_of(deploys, finalized, current_instant);
    lemma_until_expired(deploys, current_instant);
    let front = deploys.take(n);
    lemma_unfinalized_in(front, finalized, hash);
    if pending.contains_key(hash) {
        let i = choose|i: int| 0 <= i < front.len() && (#[trigger] front[i]).hash == hash && front[i].header == pending[hash];
        assert(deploys[i].hash == hash);
        assert forall|j: int| 0 <= j <= i implies (#[trigger] deploys[j]).header.timestamp.0 + deploys[j].header.ttl.0
            >= current_instant.0 by {}
    }
    if !finalized.contains(hash) && exists|i: int|
        {
            &&& 0 <= i < deploys.len()
            &&& (#[trigger] deploys[i]).hash == hash
            &&& forall|j: int| 0 <= j <= i ==> (#[trigger] deploys[j]).header.timestamp.0 + deploys[j].header.ttl.0 >= current_instant.0
        } {
        let i = choose|i: int|
            {
                &&& 0 <= i < deploys.len()
                &&& (#[trigger] deploys[i]).hash == hash
                &&& forall|j: int|
                    0 <= j <= i ==> (#[trigger] deploys[j]).header.timestamp.0 + deploys[j].header.ttl.0 >= current_instant.0
            };
        if i >= n {
            assert(deploys[n].header.timestamp.0 + deploys[n].header.ttl.0 >= current_instant.0);
        }
        assert(front[i].hash == hash);
    }
}

proof fn lemma_until_expired(deploys: Seq<Rc<Deploy>>, current_instant: Timestamp)
    ensures
        ({
            let n = crate::storage::before_expired(deploys, current_instant);
            &&& n <= deploys.len()
            &&& forall|i: int|
                0 <= i < n ==> (#[trigger] deploys[i]).header.timestamp.0 + deploys[i].header.ttl.0 >= current_instant.0
            &&& n < deploys.len() ==> deploys[n as int].header.timestamp.0 + deploys[n as int].header.ttl.0 < current_instant.0
        }),
    decreases deploys.len(),
{
    if deploys.len() > 0 && !deploys[0].header.is_expired(current_instant) {
        let rest = deploys.skip(1);
        lemma_until_expired(rest, current_instant);
        let n = crate::storage::before_expired(deploys, current_instant);
        assert forall|i: int| 0 <= i < n implies (#[trigger] deploys[i]).header.timestamp.0 + deploys[i].header.ttl.0
            >= current_instant.0 by {
            if i > 0 {
                assert(rest[i - 1] == deploys[i]);
            }
        }
    }
}

proof fn lemma_unfinalized_in(deploys: Seq<Rc<Deploy>>, finalized: Set<DeployHash>, hash: DeployHash)
    ensures
        ({
            let pending = crate::storage::unfinalized(deploys, finalized);
            &&& pending.contains_key(hash) == (!finalized.contains(hash) && exists|i: int|
                0 <= i < deploys.len() && (#[trigger] deploys[i]).hash == hash)
            &&& pending.contains_key(hash) ==> exists|i: int|
                0 <= i < deploys.len() && (#[trigger] deploys[i]).hash == hash && deploys[i].header == pending[hash]
        }),
    decreases deploys.len(),
{
    if deploys.len() > 0 {
        let front = deploys.drop_last();
        lemma_unfinalized_in(front, finalized, hash);
        let pending = crate::storage::unfinalized(deploys, finalized);
        let before = crate::storage::unfinalized(front, finalized);
        let last = deploys.len() - 1;
        assert(forall|i: int| 0 <= i < front.len() ==> #[trigger] front[i] == deploys[i]);
        if before.contains_key(hash) && deploys[last].hash != hash {
            let i = choose|i: int| 0 <= i < front.len() && (#[trigger] front[i]).hash == hash && front[i].header == before[hash];
            assert(deploys[i].hash == hash);
        }
        if pending.contains_key(hash) && deploys[last].hash == hash {
            assert(deploys[last].header == pending[hash]);
        }
        if exists|i: int| 0 <= i < deploys.len() && (#[trigger] deploys[i]).hash == hash {
            let i = choose|i: int| 0 <= i < deploys.len() && (#[trigger] deploys[i]).hash == hash;
            if i < last {
                assert(front[i].hash == hash);
            }
        }
    }
}

/// A stored deploy is loaded as finalized exactly if a block lists it that, like every block above it up to
/// the latest one, is stored and no older than a deploy can live. Nothing that is loaded as pending has
/// expired or is loaded as finalized, and all of it is stored.
pub proof fn law_loaded_from_recent_blocks(
    m: crate::storage::StorageModel<Block, Deploy>,
    latest: u64,
    version: crate::version::VersionModel,
    now: Timestamp,
    state: crate::block_proposer::StateModel,
    hash: DeployHash,
)
    requires
        crate::storage::proposer_state_loaded(m, latest, version, now, state),
    ensures
        ({
            let max_ttl = m.chainspecs[version].genesis.deploy_config.max_ttl.0;
            let pending = crate::collections::entry_map(state.pending);
            &&& state.finalized.contains_key(hash) ==> m.deploys.contains_key(hash) && state.finalized[hash] == m.deploys[hash].header
            &&& state.finalized.contains_key(hash) == (m.deploys.contains_key(hash) && exists|k: int|
                {
                    &&& 0 <= k <= latest
                    &&& #[trigger] listed_at(m, (latest - k) as u64, hash)
                    &&& forall|i: int| 0 <= i <= k ==> stored_since(m, #[trigger] ((latest - i) as u64), now.0 - max_ttl)
                })
            &&& pending.contains_key(hash) ==> {
                &&& m.deploys.contains_key(hash)
                &&& pending[hash] == m.deploys[hash].header
                &&& !state.finalized.contains_key(hash)
                &&& m.deploys[hash].header.timestamp.0 + m.deploys[hash].header.ttl.0 >= now.0
            }
            &&& state.next_finalized == 0
            &&& state.finalization_queue.dom() == Set::<u64>::empty()
            &&& state.request_queue.dom() == Set::<u64>::empty()
        }),
{
    let max_ttl = m.chainspecs[version].genesis.deploy_config.max_ttl.0;
    let oldest = now.0 - max_ttl;
    let height = latest as int;
    let blocks = crate::storage::recent_blocks(m, height, oldest);
    law_finalized_in_recent_blocks(m, height, oldest, hash);
    if state.finalized.contains_key(hash) {
        let k = choose|k: int| 0 <= k < blocks.len() && (#[trigger] blocks[k]).header.deploy_hashes@.contains(hash);
        law_recent_blocks(m, height, oldest, k);
        assert(listed_at(m, (latest - k) as u64, hash));
        assert forall|i: int| 0 <= i <= k implies stored_since(m, #[trigger] ((latest - i) as u64), oldest) by {
            law_recent_blocks(m, height, oldest, i);
        }
    }
    if m.deploys.contains_key(hash) && exists|k: int|
        {
            &&& 0 <= k <= latest
            &&& #[trigger] listed_at(m, (latest - k) as u64, hash)
            &&& forall|i: int| 0 <= i <= k ==> stored_since(m, #[trigger] ((latest - i) as u64), oldest)
        } {
        let k = choose|k: int|
            {
                &&& 0 <= k <= latest
                &&& #[trigger] listed_at(m, (latest - k) as u64, hash)
                &&& forall|i: int| 0 <= i <= k ==> stored_since(m, #[trigger] ((latest - i) as u64), oldest)
            };
        law_recent_blocks(m, height, oldest, k);
        if blocks.len() <= k {
            let next = blocks.len() as int;
            assert(stored_since(m, (latest - next) as u64, oldest));
            assert(false);
        }
        assert(blocks[k].header.deploy_hashes@.contains(hash));
    }
    let deploys = choose|deploys: Seq<Rc<Deploy>>| #[trigger]
        crate::storage::all_deploys(m, deploys) && state.pending_map() == crate::storage::pending_of(
            deploys,
            state.finalized.dom(),
            now,
        );
    law_pending_before_the_first_expired(deploys, state.finalized.dom(), now, hash);
    if state.pending_map().contains_key(hash) {
        let i = choose|i: int|
            {
                &&& 0 <= i < deploys.len()
                &&& (#[trigger] deploys[i]).hash == hash
                &&& forall|j: int| 0 <= j <= i ==> (#[trigger] deploys[j]).header.timestamp.0 + deploys[j].header.ttl.0 >= now.0
            };
        assert(deploys[i].header.timestamp.0 + deploys[i].header.ttl.0 >= now.0);
        assert(m.deploys[hash] == deploys[i]);
    }
    assert(state.finalization_queue.dom() =~= Set::<u64>::empty());
    assert(state.request_queue.dom() =~= Set::<u64>::empty());
}

/// The block kept for a height lists a deploy.
pub open spec fn listed_at(m: crate::storage::StorageModel<Block, Deploy>, height: u64, hash: DeployHash) -> bool {
    m.blocks[m.heights[height]].header.deploy_hashes@.contains(hash)
}

/// There is a block for a height, not made before a given time.
pub open spec fn stored_since(m: crate::storage::StorageModel<Block, Deploy>, height: u64, oldest: int) -> bool {
    m.heights.contains_key(height) && m.blocks.contains_key(m.heights[height])
        && m.blocks[m.heights[height]].header.timestamp.0 >= oldest
}

/// There is no highest block where no height has a block, and one that is found is kept for a height.
pub proof fn law_no_highest_block<B: Value + WithBlockHeight, D: Value>(
    m: crate::storage::StorageModel<B, D>,
    after: crate::storage::StorageModel<B, D>,
    answer: Answer<B, D>,
)
    requires
        crate::storage::answers(m, StorageRequest::GetHighestBlock, after, answer),
        forall|h: u64| !#[trigger] m.heights.contains_key(h),
    ensures
        after == m,
        answer == Answer::<B, D>::Block(None),
{
    assert(m.heights =~= Map::<u64, B::Id>::empty());
}

} // verus!
