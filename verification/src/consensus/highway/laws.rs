//! What is accepted into the protocol state, and what becomes of it.

use crate::consensus::highway::context::{Context, ContextTypes};
use crate::consensus::highway::evidence::{Evidence, EvidenceError};
use crate::consensus::highway::panorama::Observation;
use crate::consensus::highway::state::{Fault, RoundInfo, VoteError};
use crate::consensus::highway::validators::ValidatorIndex;
use crate::consensus::highway::vertex::{Dependency, Endorsements, SignedWireVote, Vertex};
use crate::consensus::highway::{Action, Effect, EndorsementError, ValidVertex, VertexError};
use crate::timestamp::Timestamp;
use std::rc::Rc;
use vstd::arithmetic::power2::pow2;
use vstd::prelude::*;

verus! {

/// Endorsements are accepted exactly if every single endorser, at whatever position, is one of the
/// validators and has signed the endorsement of this vote. Otherwise the error is that of the first
/// endorser who is or has not.
pub proof fn law_every_endorsement_is_signed<C: Context>(
    m: crate::consensus::highway::HighwayModel<C>,
    e: Rc<Endorsements<C>>,
) -> (bad: int)
    ensures
        m.vertex_flaw(Vertex::Endorsements(e)) is None <==> forall|i: int|
            #![trigger e.endorsers@[i]]
            0 <= i < e.endorsers@.len() ==> e.endorsers@[i].0.0 < m.validators.len() && C::signed_by(
                C::endorsement_hash(e.vote, e.endorsers@[i].0),
                m.validators[e.endorsers@[i].0.0 as int].id,
                e.endorsers@[i].1,
            ),
        m.vertex_flaw(Vertex::Endorsements(e)) matches Some(error) ==> {
            &&& 0 <= bad < e.endorsers@.len()
            &&& forall|i: int|
                #![trigger e.endorsers@[i]]
                0 <= i < bad ==> e.endorsers@[i].0.0 < m.validators.len() && C::signed_by(
                    C::endorsement_hash(e.vote, e.endorsers@[i].0),
                    m.validators[e.endorsers@[i].0.0 as int].id,
                    e.endorsers@[i].1,
                )
            &&& e.endorsers@[bad].0.0 >= m.validators.len() ==> error == VertexError::Endorsement(EndorsementError::Creator)
            &&& e.endorsers@[bad].0.0 < m.validators.len() ==> {
                &&& error == VertexError::Endorsement(EndorsementError::Signature)
                &&& !C::signed_by(
                    C::endorsement_hash(e.vote, e.endorsers@[bad].0),
                    m.validators[e.endorsers@[bad].0.0 as int].id,
                    e.endorsers@[bad].1,
                )
            }
        },
{
    lemma_endorsers(m, e, 0)
}

/// What is found from a position on.
proof fn lemma_endorsers<C: Context>(m: crate::consensus::highway::HighwayModel<C>, e: Rc<Endorsements<C>>, from: int) -> (bad: int)
    requires
        0 <= from <= e.endorsers@.len(),
    ensures
        m.endorsement_flaw(*e, from) is None ==> forall|i: int|
            #![trigger e.endorsers@[i]]
            from <= i < e.endorsers@.len() ==> e.endorsers@[i].0.0 < m.validators.len() && C::signed_by(
                C::endorsement_hash(e.vote, e.endorsers@[i].0),
                m.validators[e.endorsers@[i].0.0 as int].id,
                e.endorsers@[i].1,
            ),
        m.endorsement_flaw(*e, from) matches Some(error) ==> {
            &&& from <= bad < e.endorsers@.len()
            &&& forall|i: int|
                #![trigger e.endorsers@[i]]
                from <= i < bad ==> e.endorsers@[i].0.0 < m.validators.len() && C::signed_by(
                    C::endorsement_hash(e.vote, e.endorsers@[i].0),
                    m.validators[e.endorsers@[i].0.0 as int].id,
                    e.endorsers@[i].1,
                )
            &&& e.endorsers@[bad].0.0 >= m.validators.len() ==> error == EndorsementError::Creator
            &&& e.endorsers@[bad].0.0 < m.validators.len() ==> {
                &&& error == EndorsementError::Signature
                &&& !C::signed_by(
                    C::endorsement_hash(e.vote, e.endorsers@[bad].0),
                    m.validators[e.endorsers@[bad].0.0 as int].id,
                    e.endorsers@[bad].1,
                )
            }
        },
    decreases e.endorsers@.len() - from,
{
    if from >= e.endorsers@.len() {
        from
    } else {
        let (idx, signature) = e.endorsers@[from];
        if idx.0 >= m.validators.len() || !C::signed_by(
            C::endorsement_hash(e.vote, idx),
            m.validators[idx.0 as int].id,
            signature,
        ) {
            from
        } else {
            lemma_endorsers(m, e, from + 1)
        }
    }
}

/// A vote passes the first test exactly if its creator is a validator who is not banned, it belongs to
/// this instance and is signed by its creator, its round exponent is neither below the minimum nor 64 or
/// more, it has a value or cites some vote, its panorama has one entry for each validator, and it does
/// not call its own creator faulty.
pub proof fn law_vote_passes_first_test<C: Context>(m: crate::consensus::highway::HighwayModel<C>, vote: Rc<SignedWireVote<C>>)
    ensures
        m.vertex_flaw(Vertex::Vote(vote)) is None <==> {
            let w = vote.wire_vote;
            let obs = w.panorama.observations@;
            let c = w.creator.0 as int;
            &&& c < m.validators.len()
            &&& w.instance_id == m.instance_id
            &&& C::signed_by(C::vote_hash(w@), m.validators[c].id, vote.signature)
            &&& !(m.state.faults.contains_key(w.creator) && m.state.faults[w.creator] is Banned)
            &&& m.state.params.spec_min_round_exp() <= w.round_exp < 64
            &&& w.value is Some || exists|i: int| 0 <= i < obs.len() && #[trigger] obs[i] is Correct
            &&& obs.len() == m.state.weights.len()
            &&& !(c < obs.len() && obs[c] is Faulty)
        },
{
}

/// Evidence passes exactly if it is two different signed votes of one validator, for this instance, with
/// the same sequence number, both signed by that validator.
pub proof fn law_evidence_is_of_two_votes<C: Context>(
    m: crate::consensus::highway::HighwayModel<C>,
    vote0: Rc<SignedWireVote<C>>,
    vote1: Rc<SignedWireVote<C>>,
    evidence: Rc<Evidence<C>>,
)
    requires
        *evidence == Evidence::Equivocation(vote0, vote1),
    ensures
        m.vertex_flaw(Vertex::Evidence(evidence)) is None <==> {
            let c = vote0.wire_vote.creator.0 as int;
            &&& c < m.validators.len()
            &&& vote1.wire_vote.creator == vote0.wire_vote.creator
            &&& vote1.wire_vote.seq_number == vote0.wire_vote.seq_number
            &&& vote0.wire_vote.instance_id == m.instance_id
            &&& vote1.wire_vote.instance_id == m.instance_id
            &&& !(vote0.wire_vote@ == vote1.wire_vote@ && vote0.signature == vote1.signature)
            &&& C::signed_by(C::vote_hash(vote0.wire_vote@), m.validators[c].id, vote0.signature)
            &&& C::signed_by(C::vote_hash(vote1.wire_vote@), m.validators[c].id, vote1.signature)
        },
{
}

/// The sum of the weights.
pub open spec fn sum(weights: Seq<u64>) -> int {
    weights.fold_left(0int, |a: int, w: u64| a + w)
}

proof fn lemma_sum(weights: Seq<u64>)
    ensures
        crate::consensus::highway::state::total(weights) == sum(weights),
    decreases weights.len(),
{
    if weights.len() > 0 {
        lemma_sum(weights.drop_last());
    }
}

/// The weights of those who endorse, and nothing for the others.
pub open spec fn weights_counted<S>(weights: Seq<u64>, endorsers: Map<ValidatorIndex, S>) -> Seq<u64> {
    Seq::new(
        weights.len(),
        |i: int|
            if endorsers.contains_key(ValidatorIndex(i as u32)) {
                weights[i]
            } else {
                0u64
            },
    )
}

proof fn lemma_counted<S>(weights: Seq<u64>, endorsers: Map<ValidatorIndex, S>)
    ensures
        crate::consensus::highway::state::endorsing_weight(weights, endorsers) == sum(weights_counted(weights, endorsers)),
    decreases weights.len(),
{
    let counted = weights_counted(weights, endorsers);
    if weights.len() > 0 {
        lemma_counted(weights.drop_last(), endorsers);
        assert(counted.drop_last() =~= weights_counted(weights.drop_last(), endorsers));
    }
}

/// A vote is endorsed exactly if those who endorse it have more than half of all weight.
pub proof fn law_endorsed_by_more_than_half<C: ContextTypes>(
    m: crate::consensus::highway::state::StateModel<C>,
    hash: C::Hash,
)
    ensures
        m.endorsements.contains_key(hash) ==> (m.is_endorsed(hash) <==> 2 * sum(
            weights_counted(m.weights, m.endorsements[hash]),
        ) > sum(m.weights)),
        !m.endorsements.contains_key(hash) ==> !m.is_endorsed(hash),
{
    lemma_sum(m.weights);
    lemma_counted(m.weights, m.endorsers(hash));
    if !m.endorsements.contains_key(hash) {
        lemma_none_counted::<C::Signature>(m.weights);
        lemma_sum_not_negative(m.weights);
    }
}

proof fn lemma_sum_not_negative(weights: Seq<u64>)
    ensures
        sum(weights) >= 0,
    decreases weights.len(),
{
    if weights.len() > 0 {
        lemma_sum_not_negative(weights.drop_last());
    }
}

proof fn lemma_none_counted<S>(weights: Seq<u64>)
    ensures
        sum(weights_counted(weights, Map::<ValidatorIndex, S>::empty())) == 0,
    decreases weights.len(),
{
    let counted = weights_counted(weights, Map::<ValidatorIndex, S>::empty());
    if weights.len() > 0 {
        lemma_none_counted::<S>(weights.drop_last());
        assert(counted.drop_last() =~= weights_counted(weights.drop_last(), Map::<ValidatorIndex, S>::empty()));
    }
}

/// Nothing is missing for a vote exactly if every vote that it cites is there, every validator that it
/// calls faulty is known to be, and every vote that it takes for endorsed is endorsed. What is said to be
/// missing is cited, and not there.
pub proof fn law_nothing_missing<C: Context>(m: crate::consensus::highway::HighwayModel<C>, vote: Rc<SignedWireVote<C>>)
    requires
        vote.wire_vote.panorama.observations@.len() <= u32::MAX,
    ensures
        ({
            let obs = vote.wire_vote.panorama.observations@;
            let endorsed = vote.wire_vote.endorsed@;
            let g = crate::consensus::highway::graph::units_of(m.state.units);
            &&& m.missing(Vertex::Vote(vote)) is None <==> {
                &&& forall|i: int|
                    0 <= i < obs.len() ==> match #[trigger] obs[i] {
                        Observation::Unseen => true,
                        Observation::Correct(h) => g.contains_key(h),
                        Observation::Faulty => m.state.faults.contains_key(ValidatorIndex(i as u32)),
                    }
                &&& forall|i: int| 0 <= i < endorsed.len() ==> m.state.is_endorsed(#[trigger] endorsed[i])
            }
            &&& match m.missing(Vertex::Vote(vote)) {
                None => true,
                Some(Dependency::Vote(h)) => !g.contains_key(h) && obs.contains(Observation::Correct(h)),
                Some(Dependency::Evidence(idx)) => !m.state.faults.contains_key(idx) && idx.0 < obs.len() && obs[idx.0 as int] is Faulty,
                Some(Dependency::Endorsement(h)) => !m.state.is_endorsed(h) && endorsed.contains(h),
            }
        }),
{
    let obs = vote.wire_vote.panorama.observations@;
    let endorsed = vote.wire_vote.endorsed@;
    lemma_missing_from(m.state, obs, 0);
    lemma_unendorsed_from(m.state, endorsed, 0);
}

proof fn lemma_missing_from<C: ContextTypes>(
    m: crate::consensus::highway::state::StateModel<C>,
    obs: Seq<Observation<C::Hash>>,
    from: int,
)
    requires
        0 <= from <= obs.len() <= u32::MAX,
    ensures
        ({
            let g = crate::consensus::highway::graph::units_of(m.units);
            match m.first_missing(obs, from) {
                None => forall|i: int|
                    from <= i < obs.len() ==> match #[trigger] obs[i] {
                        Observation::Unseen => true,
                        Observation::Correct(h) => g.contains_key(h),
                        Observation::Faulty => m.faults.contains_key(ValidatorIndex(i as u32)),
                    },
                Some(Dependency::Vote(h)) => !g.contains_key(h) && obs.contains(Observation::Correct(h)),
                Some(Dependency::Evidence(idx)) => !m.faults.contains_key(idx) && idx.0 < obs.len() && obs[idx.0 as int] is Faulty,
                Some(Dependency::Endorsement(_)) => false,
            }
        }),
    decreases obs.len() - from,
{
    if from < obs.len() {
        let here = obs[from];
        assert(obs.contains(here));
        if m.missing_for(from, here) is None {
            lemma_missing_from(m, obs, from + 1);
        }
    }
}

proof fn lemma_unendorsed_from<C: ContextTypes>(
    m: crate::consensus::highway::state::StateModel<C>,
    hashes: Seq<C::Hash>,
    from: int,
)
    requires
        0 <= from <= hashes.len(),
    ensures
        match m.first_unendorsed(hashes, from) {
            None => forall|i: int| from <= i < hashes.len() ==> m.is_endorsed(#[trigger] hashes[i]),
            Some(h) => !m.is_endorsed(h) && hashes.contains(h),
        },
    decreases hashes.len() - from,
{
    if from < hashes.len() {
        assert(hashes.contains(hashes[from]));
        if m.is_endorsed(hashes[from]) {
            lemma_unendorsed_from(m, hashes, from + 1);
        }
    }
}

/// Endorsements wait for the vote that they endorse, and for nothing else; evidence waits for nothing.
pub proof fn law_endorsements_wait_for_their_vote<C: Context>(
    m: crate::consensus::highway::HighwayModel<C>,
    e: Rc<Endorsements<C>>,
    evidence: Rc<Evidence<C>>,
)
    ensures
        m.missing(Vertex::Endorsements(e)) == (if crate::consensus::highway::graph::units_of(m.state.units).contains_key(e.vote) {
            None::<Dependency<C>>
        } else {
            Some(Dependency::Vote(e.vote))
        }),
        m.missing(Vertex::Evidence(evidence)) is None,
{
}

/// A round begins at the last multiple of its length.
pub proof fn law_round_start(timestamp: Timestamp, round_exp: u8)
    ensures
        ({
            let start = crate::consensus::highway::unit::round_start(timestamp, round_exp);
            let len = pow2(round_exp as nat) as int;
            start <= timestamp.0 < start + len && start % len == 0
        }),
{
    let len = pow2(round_exp as nat) as int;
    vstd::arithmetic::power2::lemma_pow2_pos(round_exp as nat);
    vstd::arithmetic::div_mod::lemma_fundamental_div_mod(timestamp.0 as int, len);
    vstd::arithmetic::div_mod::lemma_mod_multiples_basic(timestamp.0 as int / len, len);
    assert(len * (timestamp.0 as int / len) == timestamp.0 as int / len * len) by (nonlinear_arith);
}

/// The beginning of a round is what is left of a time without the rest that its length leaves.
proof fn lemma_start(timestamp: Timestamp, round_exp: u8)
    ensures
        crate::consensus::highway::unit::round_start(timestamp, round_exp) == timestamp.0 - timestamp.0 as int % (pow2(
            round_exp as nat,
        ) as int),
        pow2(round_exp as nat) > 0,
{
    let len = pow2(round_exp as nat) as int;
    vstd::arithmetic::power2::lemma_pow2_pos(round_exp as nat);
    vstd::arithmetic::div_mod::lemma_fundamental_div_mod(timestamp.0 as int, len);
    assert(len * (timestamp.0 as int / len) == timestamp.0 as int / len * len) by (nonlinear_arith);
}

/// A vote fits in exactly if every vote that it cites is by the validator under whom it is cited and no
/// later than it, its sequence number follows the one that its creator had before, the creator's round
/// length does not change while a round of the longer of the two lasts, it is not the third of its creator
/// in a round, and, if it has a value, it is the leader's first in its round, at the very beginning, and
/// not behind a terminal block.
pub proof fn law_vote_passes_second_test<C: Context>(
    m: crate::consensus::highway::state::StateModel<C>,
    vote: Rc<SignedWireVote<C>>,
    info: RoundInfo,
)
    requires
        m.vote_flaw(*vote) is None,
        m.first_missing(vote.wire_vote.panorama.observations@, 0) is None,
        m.weights.len() <= u32::MAX,
        vote.wire_vote.creator.0 < m.weights.len(),
    ensures
        m.placed_vote_flaw(*vote, info) is None <==> {
            let g = crate::consensus::highway::graph::units_of(m.units);
            let w = vote.wire_vote;
            let obs = w.panorama.observations@;
            let this_round = w.timestamp.0 - w.timestamp.0 as int % (pow2(w.round_exp as nat) as int);
            &&& forall|i: int|
                0 <= i < obs.len() ==> (#[trigger] obs[i] matches Observation::Correct(h) ==> g.contains_key(h) && g[h].creator.0
                    == i && g[h].timestamp.0 <= w.timestamp.0)
            &&& match obs[w.creator.0 as int] {
                Observation::Correct(prev) => {
                    let u = g[prev];
                    let longer = if u.round_exp > w.round_exp {
                        u.round_exp
                    } else {
                        w.round_exp
                    };
                    let len = pow2(longer as nat) as int;
                    &&& w.seq_number == u.seq_number + 1
                    &&& u.round_exp != w.round_exp ==> u.timestamp.0 - u.timestamp.0 as int % len != w.timestamp.0 - w.timestamp.0 as int
                        % len
                    &&& u.creator.0 < u.panorama.observations@.len() ==> match u.panorama.observations@[u.creator.0 as int] {
                        Observation::Correct(first) => g[first].timestamp.0 - g[first].timestamp.0 as int % (pow2(
                            g[first].round_exp as nat,
                        ) as int) != this_round,
                        _ => true,
                    }
                    &&& w.value is Some ==> u.timestamp.0 - u.timestamp.0 as int % (pow2(u.round_exp as nat) as int) != this_round
                },
                _ => w.seq_number == 0,
            }
            &&& w.value is Some ==> {
                &&& info.leader == w.creator
                &&& !info.terminal
                &&& w.timestamp.0 as int % (pow2(w.round_exp as nat) as int) == 0
            }
        },
{
    let g = crate::consensus::highway::graph::units_of(m.units);
    let w = vote.wire_vote;
    let obs = w.panorama.observations@;
    lemma_missing_from(m, obs, 0);
    lemma_start(w.timestamp, w.round_exp);
    assert((!m.misplaced(obs) && !m.cites_later(obs, w.timestamp)) <==> forall|i: int|
        0 <= i < obs.len() ==> (#[trigger] obs[i] matches Observation::Correct(h) ==> g.contains_key(h) && g[h].creator.0 == i
            && g[h].timestamp.0 <= w.timestamp.0));
    match obs[w.creator.0 as int] {
        Observation::Correct(prev) => {
            let u = g[prev];
            let longer = crate::consensus::highway::state::larger(u.round_exp, w.round_exp);
            lemma_start(u.timestamp, longer);
            lemma_start(w.timestamp, longer);
            lemma_start(u.timestamp, u.round_exp);
            if u.creator.0 < u.panorama.observations@.len() {
                match u.panorama.observations@[u.creator.0 as int] {
                    Observation::Correct(first) => {
                        lemma_start(g[first].timestamp, g[first].round_exp);
                    },
                    _ => {},
                }
            }
        },
        _ => {},
    }
}

/// A validator who has made two different votes with one sequence number is known to be faulty as soon
/// as both are there, and no validator becomes faulty by a vote that follows its latest one.
pub proof fn law_equivocators_are_faulty<C: Context>(
    m: crate::consensus::highway::HighwayModel<C>,
    vote: Rc<SignedWireVote<C>>,
    now: Timestamp,
    fork_choice: Option<C::Hash>,
    post: crate::consensus::highway::HighwayModel<C>,
    actions: Seq<Action<C>>,
    other: C::Hash,
)
    requires
        m.state.consistent(),
        m.state.vote_fits(*vote),
        !crate::consensus::highway::graph::units_of(m.state.units).contains_key(C::vote_hash(vote.wire_vote@)),
        m.vertex_added(Vertex::Vote(vote), now, fork_choice, post, actions),
    ensures
        ({
            let g = crate::consensus::highway::graph::units_of(m.state.units);
            let c = vote.wire_vote.creator;
            let hash = C::vote_hash(vote.wire_vote@);
            let claimed = vote.wire_vote.panorama.observations@[c.0 as int];
            &&& g.contains_key(other) && g[other].creator == c && g[other].seq_number == vote.wire_vote.seq_number
                ==> post.state.faults.contains_key(c) && post.state.panorama[c.0 as int] is Faulty
            &&& m.state.panorama[c.0 as int] == claimed ==> post.state.faults == m.state.faults && post.state.panorama[c.0 as int]
                == Observation::Correct(hash)
            &&& post.state.faults.contains_key(c) && !m.state.faults.contains_key(c) ==> {
                &&& post.state.faults[c] matches Fault::Direct(evidence) && (*evidence matches Evidence::Equivocation(v0, v1) && v1
                    == vote && v0.wire_vote.creator == c && v0.wire_vote.seq_number == vote.wire_vote.seq_number && C::vote_hash(
                    v0.wire_vote@,
                ) != hash && actions.contains(Action::Emit(Effect::NewVertex(ValidVertex(Vertex::Evidence(evidence))))))
            }
            &&& forall|idx: ValidatorIndex|
                idx != c ==> #[trigger] post.state.faults.contains_key(idx) == m.state.faults.contains_key(idx)
            &&& forall|i: int|
                0 <= i < m.state.panorama.len() && i != c.0 ==> #[trigger] post.state.panorama[i] == m.state.panorama[i]
        }),
{
    let g = crate::consensus::highway::graph::units_of(m.state.units);
    let c = vote.wire_vote.creator;
    let hash = C::vote_hash(vote.wire_vote@);
    let known = m.state.panorama[c.0 as int];
    let claimed = vote.wire_vote.panorama.observations@[c.0 as int];
    let seq = vote.wire_vote.seq_number as int;
    let unit = choose|unit: Rc<crate::consensus::highway::unit::Unit<C>>|
        {
            &&& unit.is_of(g, *vote, fork_choice)
            &&& #[trigger] post.state.is_with_vote(m.state, hash, vote, unit)
        };
    assert(post.state.is_with_vote(m.state, hash, vote, unit));
    assert((known is Faulty) == m.state.faults.contains_key(ValidatorIndex(c.0 as int as u32)));
    assert(ValidatorIndex(c.0 as int as u32) == c);
    if g.contains_key(other) && g[other].creator == c && g[other].seq_number == seq {
        assert(m.state.in_lane(other));
        if known == claimed {
            match claimed {
                Observation::Correct(p) => {
                    assert(g.contains_key(p));
                    assert(crate::consensus::highway::unit::ancestor(g, p, seq) is None);
                },
                _ => {},
            }
        }
    }
    if !(known is Faulty) && known != claimed {
        let latest = known->Correct_0;
        let first = crate::consensus::highway::unit::ancestor(g, latest, seq)->0;
        crate::consensus::highway::unit::lemma_ancestor_is(g, latest, seq);
        assert(g.contains_key(latest) && g[latest].creator.0 == c.0);
        assert(m.state.votes.contains_key(first));
        assert(post.state.faults.contains_key(c));
        let evidence = post.state.faults[c]->Direct_0;
        let gossip: Action<C> = Action::Emit(Effect::NewVertex(ValidVertex(Vertex::Evidence(evidence))));
        let news = m.evidence_actions(evidence);
        assert(news[news.len() - 1] == gossip);
        assert(actions[news.len() - 1] == gossip);
    }
}

/// A new vote is kept under its hash, with its author, time and panorama, and all that was there stays;
/// an active validator is told of it after everything else.
pub proof fn law_votes_are_kept<C: Context>(
    m: crate::consensus::highway::HighwayModel<C>,
    vote: Rc<SignedWireVote<C>>,
    now: Timestamp,
    fork_choice: Option<C::Hash>,
    post: crate::consensus::highway::HighwayModel<C>,
    actions: Seq<Action<C>>,
    h: C::Hash,
)
    requires
        m.state.consistent(),
        !crate::consensus::highway::graph::units_of(m.state.units).contains_key(C::vote_hash(vote.wire_vote@)),
        m.vertex_added(Vertex::Vote(vote), now, fork_choice, post, actions),
    ensures
        ({
            let before = crate::consensus::highway::graph::units_of(m.state.units);
            let g = crate::consensus::highway::graph::units_of(post.state.units);
            let hash = C::vote_hash(vote.wire_vote@);
            &&& g.contains_key(hash)
            &&& g[hash].creator == vote.wire_vote.creator
            &&& g[hash].seq_number == vote.wire_vote.seq_number
            &&& g[hash].timestamp == vote.wire_vote.timestamp
            &&& g[hash].round_exp == vote.wire_vote.round_exp
            &&& g[hash].panorama == vote.wire_vote.panorama
            &&& g[hash].signature == vote.signature
            &&& vote.wire_vote.value is Some ==> g[hash].block == hash
            &&& vote.wire_vote.value is None ==> Some(g[hash].block) == fork_choice || fork_choice is None
            &&& post.state.votes[hash] == vote
            &&& before.contains_key(h) ==> g.contains_key(h) && g[h] == before[h] && post.state.votes[h] == m.state.votes[h]
            &&& g.contains_key(h) && h != hash ==> before.contains_key(h)
            &&& m.active is Some ==> actions.len() > 0 && actions.last() == Action::<C>::OnNewVote { vhash: hash, timestamp: now }
            &&& m.active is None ==> !actions.contains(Action::<C>::OnNewVote { vhash: hash, timestamp: now })
            &&& post.state.params == m.state.params
            &&& post.state.weights == m.state.weights
            &&& post.state.endorsements == m.state.endorsements
        }),
{
    let before = crate::consensus::highway::graph::units_of(m.state.units);
    let hash = C::vote_hash(vote.wire_vote@);
    let unit = choose|unit: Rc<crate::consensus::highway::unit::Unit<C>>|
        {
            &&& unit.is_of(before, *vote, fork_choice)
            &&& #[trigger] post.state.is_with_vote(m.state, hash, vote, unit)
        };
    assert(post.state.is_with_vote(m.state, hash, vote, unit));
    crate::collections::lemma_entry_map_push(m.state.units, hash, unit);
}

/// Evidence makes the accused faulty and is kept and spread, unless the fault was already shown or the
/// accused is banned; nobody else is touched.
pub proof fn law_evidence_is_kept<C: Context>(
    m: crate::consensus::highway::HighwayModel<C>,
    evidence: Rc<Evidence<C>>,
    vote0: Rc<SignedWireVote<C>>,
    vote1: Rc<SignedWireVote<C>>,
    now: Timestamp,
    fork_choice: Option<C::Hash>,
    post: crate::consensus::highway::HighwayModel<C>,
    actions: Seq<Action<C>>,
)
    requires
        *evidence == Evidence::Equivocation(vote0, vote1),
        m.state.consistent(),
        vote0.wire_vote.creator.0 < m.state.weights.len(),
        m.vertex_added(Vertex::Evidence(evidence), now, fork_choice, post, actions),
    ensures
        ({
            let c = vote0.wire_vote.creator;
            let news = !m.state.faults.contains_key(c) || m.state.faults[c] is Indirect;
            &&& post.state.faults.contains_key(c)
            &&& post.state.panorama[c.0 as int] is Faulty
            &&& news ==> post.state.faults[c] == Fault::Direct(evidence) && actions.len() > 0 && actions.last() == Action::<C>::Emit(
                Effect::NewVertex(ValidVertex(Vertex::Evidence(evidence))),
            )
            &&& news && m.active is Some ==> actions.len() == 2 && actions[0] == Action::<C>::OnNewEvidence(evidence)
            &&& news && m.active is None ==> actions.len() == 1
            &&& !news ==> post.state == m.state && actions.len() == 0
            &&& post.state.units == m.state.units
            &&& post.state.votes == m.state.votes
            &&& post.state.endorsements == m.state.endorsements
            &&& forall|idx: ValidatorIndex|
                idx != c ==> #[trigger] post.state.faults.contains_key(idx) == m.state.faults.contains_key(idx) && (
                m.state.faults.contains_key(idx) ==> post.state.faults[idx] == m.state.faults[idx])
        }),
{
    let c = vote0.wire_vote.creator;
    assert(ValidatorIndex(c.0 as int as u32) == c);
    assert((m.state.panorama[c.0 as int] is Faulty) == m.state.faults.contains_key(ValidatorIndex(c.0 as int as u32)));
}

/// A validator that others call faulty is so from then on, with whatever was known before kept.
pub proof fn law_marked_faulty<C: ContextTypes>(m: crate::consensus::highway::state::StateModel<C>, idx: ValidatorIndex)
    requires
        idx.0 < m.panorama.len(),
        (m.panorama[idx.0 as int] is Faulty) == m.faults.contains_key(idx),
    ensures
        m.with_faulty(idx).faults.contains_key(idx),
        m.with_faulty(idx).panorama[idx.0 as int] is Faulty,
        m.faults.contains_key(idx) ==> m.with_faulty(idx) == m,
        !m.faults.contains_key(idx) ==> m.with_faulty(idx).faults[idx] is Indirect,
        m.with_faulty(idx).units == m.units,
        m.with_faulty(idx).endorsements == m.endorsements,
        forall|other: ValidatorIndex|
            other != idx ==> #[trigger] m.with_faulty(idx).faults.contains_key(other) == m.faults.contains_key(other),
{
}

/// Every endorser in a vertex counts from then on, with the signature given last; earlier endorsers stay,
/// and no other vote's do change. For a vote that is endorsed already nothing changes.
pub proof fn law_endorsers_are_counted<C: Context>(
    m: crate::consensus::highway::HighwayModel<C>,
    e: Rc<Endorsements<C>>,
    now: Timestamp,
    fork_choice: Option<C::Hash>,
    post: crate::consensus::highway::HighwayModel<C>,
    actions: Seq<Action<C>>,
    idx: ValidatorIndex,
    other: C::Hash,
)
    requires
        m.vertex_added(Vertex::Endorsements(e), now, fork_choice, post, actions),
        other != e.vote,
    ensures
        actions.len() == 0,
        post.state.faults == m.state.faults,
        post.state.units == m.state.units,
        m.state.is_endorsed(e.vote) ==> post.state == m.state,
        !m.state.is_endorsed(e.vote) && e.endorsers@.len() > 0 ==> {
            let listed = exists|i: int| 0 <= i < e.endorsers@.len() && (#[trigger] e.endorsers@[i]).0 == idx;
            let before = m.state.endorsements.contains_key(e.vote) && m.state.endorsements[e.vote].contains_key(idx);
            &&& post.state.endorsements.contains_key(e.vote)
            &&& post.state.endorsements[e.vote].contains_key(idx) == (before || listed)
            &&& before && !listed ==> post.state.endorsements[e.vote][idx] == m.state.endorsements[e.vote][idx]
        },
        post.state.endorsements.contains_key(other) == m.state.endorsements.contains_key(other),
        m.state.endorsements.contains_key(other) ==> post.state.endorsements[other] == m.state.endorsements[other],
{
    lemma_with_endorsers(m.state.endorsers(e.vote), e.endorsers@, idx);
    if m.has_vertex(Vertex::Endorsements(e)) && !m.state.is_endorsed(e.vote) && e.endorsers@.len() > 0 {
        assert(m.state.endorsers(e.vote).contains_key(e.endorsers@[0].0));
    }
}

proof fn lemma_with_endorsers<S>(endorsers: Map<ValidatorIndex, S>, more: Seq<(ValidatorIndex, S)>, idx: ValidatorIndex)
    ensures
        ({
            let listed = exists|i: int| 0 <= i < more.len() && (#[trigger] more[i]).0 == idx;
            let after = crate::consensus::highway::state::with_endorsers(endorsers, more);
            &&& after.contains_key(idx) == (endorsers.contains_key(idx) || listed)
            &&& endorsers.contains_key(idx) && !listed ==> after[idx] == endorsers[idx]
        }),
    decreases more.len(),
{
    if more.len() > 0 {
        let front = more.drop_last();
        lemma_with_endorsers(endorsers, front, idx);
        assert forall|i: int| 0 <= i < front.len() implies #[trigger] front[i] == more[i] by {}
        if exists|i: int| 0 <= i < more.len() && (#[trigger] more[i]).0 == idx {
            let i = choose|i: int| 0 <= i < more.len() && (#[trigger] more[i]).0 == idx;
            if i < front.len() {
                assert(front[i].0 == idx);
            }
        }
        if exists|i: int| 0 <= i < front.len() && (#[trigger] front[i]).0 == idx {
            let i = choose|i: int| 0 <= i < front.len() && (#[trigger] front[i]).0 == idx;
            assert(more[i].0 == idx);
        }
        assert(more[more.len() - 1] == more.last());
    }
}

/// Going back in a validator's own votes from one of them finds, for each number up to its own, the one
/// vote with that number that is reached by following the creator's own citations, and nothing for a
/// higher number.
pub proof fn law_swimlane<C: ContextTypes>(g: crate::consensus::highway::unit::Units<C>, h: C::Hash, n: int) -> (path: Seq<C::Hash>)
    requires
        crate::consensus::highway::unit::linked(g),
        g.contains_key(h),
        0 <= n,
    ensures
        n > g[h].seq_number ==> crate::consensus::highway::unit::ancestor(g, h, n) is None,
        n <= g[h].seq_number ==> {
            &&& path.len() == g[h].seq_number - n + 1
            &&& path[0] == h
            &&& crate::consensus::highway::unit::ancestor(g, h, n) == Some(path.last())
            &&& forall|i: int|
                0 <= i < path.len() ==> g.contains_key(#[trigger] path[i]) && g[path[i]].creator == g[h].creator && g[path[i]].seq_number
                    == g[h].seq_number - i
            &&& forall|i: int|
                0 <= i < path.len() - 1 ==> {
                    let u = g[#[trigger] path[i]];
                    u.creator.0 < u.panorama.observations@.len() && u.panorama.observations@[u.creator.0 as int] == Observation::Correct(
                        path[i + 1],
                    )
                }
        },
    decreases g[h].seq_number,
{
    if n >= g[h].seq_number {
        seq![h]
    } else {
        assert(crate::consensus::highway::unit::unit_linked(g, *g[h]));
        let p = crate::consensus::highway::unit::previous_of(&*g[h])->0;
        let rest = law_swimlane(g, p, n);
        let path = seq![h] + rest;
        assert forall|i: int| 0 <= i < path.len() implies g.contains_key(#[trigger] path[i]) && g[path[i]].creator == g[h].creator
            && g[path[i]].seq_number == g[h].seq_number - i by {
            if i > 0 {
                assert(path[i] == rest[i - 1]);
            }
        }
        assert forall|i: int| 0 <= i < path.len() - 1 implies ({
            let u = g[#[trigger] path[i]];
            u.creator.0 < u.panorama.observations@.len() && u.panorama.observations@[u.creator.0 as int] == Observation::Correct(
                path[i + 1],
            )
        }) by {
            if i > 0 {
                assert(path[i] == rest[i - 1]);
                assert(path[i + 1] == rest[i]);
            }
        }
        path
    }
}

/// What a vote sees, it reaches by following citations from vote to vote.
pub proof fn law_seen_is_reached<C: ContextTypes>(
    s: crate::consensus::highway::graph::UnitOrder<C>,
    n: int,
    h: C::Hash,
    t: C::Hash,
) -> (path: Seq<C::Hash>)
    requires
        crate::consensus::highway::graph::graph_wf(s, n),
        crate::consensus::highway::graph::units_of(s).contains_key(h),
        crate::consensus::highway::graph::units_of(s).contains_key(t),
        crate::consensus::highway::graph::sees(s, h, t),
    ensures
        path.len() > 0,
        path[0] == h,
        path.last() == t,
        forall|i: int|
            0 <= i < path.len() - 1 ==> {
                let g = crate::consensus::highway::graph::units_of(s);
                g.contains_key(#[trigger] path[i]) && g[path[i]].panorama.observations@.contains(Observation::Correct(path[i + 1]))
            },
    decreases crate::collections::key_index(s, h),
{
    let g = crate::consensus::highway::graph::units_of(s);
    crate::consensus::highway::graph::lemma_position(s, n, h);
    if h == t {
        seq![h]
    } else {
        let u = g[h];
        match crate::consensus::highway::unit::sees_of(&*u, g[t].creator) {
            Observation::Correct(l) => {
                assert(u.panorama.observations@[g[t].creator.0 as int] == Observation::Correct(l));
                crate::consensus::highway::unit::lemma_ancestor_is(g, l, g[t].seq_number as int);
                let rest = law_swimlane(g, l, g[t].seq_number as int);
                let path = seq![h] + rest;
                assert forall|i: int| 0 <= i < path.len() - 1 implies g.contains_key(#[trigger] path[i])
                    && g[path[i]].panorama.observations@.contains(Observation::Correct(path[i + 1])) by {
                    if i > 0 {
                        assert(path[i] == rest[i - 1]);
                        assert(path[i + 1] == rest[i]);
                        let o = g[rest[i - 1]].panorama.observations@;
                        assert(o[g[rest[i - 1]].creator.0 as int] == Observation::Correct(path[i + 1]));
                    } else {
                        assert(path[1] == rest[0]);
                    }
                }
                path
            },
            Observation::Faulty => {
                let i = choose|i: int|
                    {
                        &&& 0 <= i < g[h].panorama.observations@.len()
                        &&& #[trigger] g[h].panorama.observations@[i] matches Observation::Correct(c) && crate::collections::has_key(
                            s,
                            c,
                        ) && 0 <= crate::collections::key_index(s, c) < crate::collections::key_index(s, h)
                            && crate::consensus::highway::graph::sees(s, c, t)
                    };
                let c = g[h].panorama.observations@[i]->Correct_0;
                let rest = law_seen_is_reached(s, n, c, t);
                let path = seq![h] + rest;
                assert forall|j: int| 0 <= j < path.len() - 1 implies g.contains_key(#[trigger] path[j])
                    && g[path[j]].panorama.observations@.contains(Observation::Correct(path[j + 1])) by {
                    if j > 0 {
                        assert(path[j] == rest[j - 1]);
                        assert(path[j + 1] == rest[j]);
                    } else {
                        assert(path[1] == rest[0]);
                    }
                }
                path
            },
            _ => seq![h],
        }
    }
}

/// A vote sees itself, what it cites, and the earlier votes in the swimlane of what it cites. Where it
/// takes another's author for faulty, it sees exactly what the votes that it cites see of that author;
/// where it has seen nothing of an author, it sees none of that author's votes.
pub proof fn law_what_is_seen<C: ContextTypes>(
    s: crate::consensus::highway::graph::UnitOrder<C>,
    n: int,
    h: C::Hash,
    t: C::Hash,
    l: C::Hash,
)
    requires
        crate::consensus::highway::graph::graph_wf(s, n),
        crate::consensus::highway::graph::units_of(s).contains_key(h),
        crate::consensus::highway::graph::units_of(s).contains_key(t),
        h != t,
    ensures
        crate::consensus::highway::graph::sees(s, h, h),
        crate::consensus::highway::graph::sees_correct(s, h, h),
        ({
            let g = crate::consensus::highway::graph::units_of(s);
            let obs = g[h].panorama.observations@;
            let own = obs[g[t].creator.0 as int];
            &&& own is Unseen ==> !crate::consensus::highway::graph::sees(s, h, t) && !crate::consensus::highway::graph::sees_correct(
                s,
                h,
                t,
            )
            &&& own is Faulty ==> !crate::consensus::highway::graph::sees_correct(s, h, t)
            &&& own is Faulty ==> (crate::consensus::highway::graph::sees(s, h, t) <==> exists|i: int|
                0 <= i < obs.len() && (#[trigger] obs[i] matches Observation::Correct(c) && crate::consensus::highway::graph::sees(
                    s,
                    c,
                    t,
                )))
            &&& own == Observation::Correct(l) ==> {
                let seen = g[t].seq_number <= g[l].seq_number && crate::consensus::highway::unit::ancestor(
                    g,
                    l,
                    g[t].seq_number as int,
                ) == Some(t);
                &&& crate::consensus::highway::graph::sees(s, h, t) == seen
                &&& crate::consensus::highway::graph::sees_correct(s, h, t) == seen
                &&& l == t ==> seen
            }
        }),
{
    let g = crate::consensus::highway::graph::units_of(s);
    let obs = g[h].panorama.observations@;
    crate::consensus::highway::graph::lemma_position(s, n, h);
    crate::consensus::highway::graph::lemma_position(s, n, t);
    let own = obs[g[t].creator.0 as int];
    match own {
        Observation::Correct(_) => {},
        Observation::Unseen => {},
        Observation::Faulty => {
            if exists|i: int|
                0 <= i < obs.len() && (#[trigger] obs[i] matches Observation::Correct(c) && crate::consensus::highway::graph::sees(
                    s,
                    c,
                    t,
                )) {
                let i = choose|i: int|
                    0 <= i < obs.len() && (#[trigger] obs[i] matches Observation::Correct(c)
                        && crate::consensus::highway::graph::sees(s, c, t));
                let c = obs[i]->Correct_0;
                assert(crate::consensus::highway::graph::cited_right(s, crate::collections::key_index(s, h), i, c));
                crate::consensus::highway::graph::lemma_position(s, n, c);
                assert(crate::collections::has_key(s, c));
                assert(crate::consensus::highway::graph::sees(s, h, t));
            }
        },
    }
}

/// The votes of one validator that two cited votes stand by, and that no endorsed vote has seen, are never
/// passed over: they are reported as more than one fork if neither is behind the other, and otherwise not
/// as no fork, and as one fork only if its tip is behind both.
pub proof fn law_forks_are_reported<C: ContextTypes>(
    s: crate::consensus::highway::graph::UnitOrder<C>,
    n: int,
    endorsed: Seq<C::Hash>,
    eq_idx: ValidatorIndex,
    panorama: Seq<Observation<C::Hash>>,
    forks: crate::consensus::highway::lnc::LncForks<C>,
    i: int,
    j: int,
    a: C::Hash,
    b: C::Hash,
    x: C::Hash,
    y: C::Hash,
)
    requires
        crate::consensus::highway::graph::graph_wf(s, n),
        crate::consensus::highway::lnc::forks_told(s, endorsed, eq_idx, panorama, forks),
        0 <= i < panorama.len(),
        0 <= j < panorama.len(),
        panorama[i] == Observation::Correct(a),
        panorama[j] == Observation::Correct(b),
        eq_idx.0 < n,
        ({
            let g = crate::consensus::highway::graph::units_of(s);
            &&& g.contains_key(a)
            &&& g.contains_key(b)
            &&& g[a].panorama.observations@[eq_idx.0 as int] == Observation::Correct(x)
            &&& g[b].panorama.observations@[eq_idx.0 as int] == Observation::Correct(y)
        }),
        forall|k: int|
            0 <= k < endorsed.len() ==> !crate::consensus::highway::graph::sees(s, #[trigger] endorsed[k], a)
                && !crate::consensus::highway::graph::sees(s, endorsed[k], b) && !crate::consensus::highway::graph::sees(
                s,
                endorsed[k],
                x,
            ) && !crate::consensus::highway::graph::sees(s, endorsed[k], y),
    ensures
        !(forks is NoFork),
        forks matches crate::consensus::highway::lnc::LncForks::Single(tip)
            ==> crate::consensus::highway::graph::sees_correct(s, tip, x) && crate::consensus::highway::graph::sees_correct(s, tip, y),
        !crate::consensus::highway::graph::sees_correct(s, x, y) && !crate::consensus::highway::graph::sees_correct(s, y, x)
            ==> forks is Multiple,
{
    let g = crate::consensus::highway::graph::units_of(s);
    crate::consensus::highway::graph::lemma_position(s, n, a);
    crate::consensus::highway::graph::lemma_position(s, n, b);
    assert(crate::consensus::highway::lnc::cites_naively(s, endorsed, eq_idx, a, x));
    assert(crate::consensus::highway::lnc::cites_naively(s, endorsed, eq_idx, b, y));
    assert(crate::consensus::highway::panorama::cites(panorama, a));
    assert(crate::consensus::highway::panorama::cites(panorama, b));
    assert(crate::consensus::highway::lnc::naive_in(s, endorsed, eq_idx, panorama, x));
    assert(crate::consensus::highway::lnc::naive_in(s, endorsed, eq_idx, panorama, y));
    assert(crate::consensus::highway::graph::cited_right(s, crate::collections::key_index(s, a), eq_idx.0 as int, x));
    assert(crate::consensus::highway::graph::cited_right(s, crate::collections::key_index(s, b), eq_idx.0 as int, y));
    match forks {
        crate::consensus::highway::lnc::LncForks::Single(tip) => {
            let c = choose|c: C::Hash| #[trigger] crate::consensus::highway::panorama::cites(panorama, c)
                && crate::consensus::highway::lnc::cites_naively(s, endorsed, eq_idx, c, tip);
            crate::consensus::highway::lnc::lemma_naive_unit(s, n, endorsed, eq_idx, c, tip);
            let nx = g[x].seq_number as int;
            let ny = g[y].seq_number as int;
            crate::consensus::highway::graph::lemma_sees_correct_own(s, n, tip, x);
            crate::consensus::highway::graph::lemma_sees_correct_own(s, n, tip, y);
            if nx <= ny {
                crate::consensus::highway::unit::lemma_ancestor_of_ancestor(g, tip, ny, nx);
                crate::consensus::highway::graph::lemma_sees_correct_own(s, n, y, x);
            } else {
                crate::consensus::highway::unit::lemma_ancestor_of_ancestor(g, tip, nx, ny);
                crate::consensus::highway::graph::lemma_sees_correct_own(s, n, x, y);
            }
        },
        _ => {},
    }
}

/// Forks are not made up. What is reported is reached from a cited vote, over votes that take the author
/// for faulty, to one that stands by a vote of that author, and nothing on the way, nor that vote itself,
/// has been seen by an endorsed vote.
pub proof fn law_reported_fork_exists<C: ContextTypes>(
    s: crate::consensus::highway::graph::UnitOrder<C>,
    n: int,
    endorsed: Seq<C::Hash>,
    eq_idx: ValidatorIndex,
    panorama: Seq<Observation<C::Hash>>,
    tip: C::Hash,
) -> (path: Seq<C::Hash>)
    requires
        crate::consensus::highway::graph::graph_wf(s, n),
        eq_idx.0 < n,
        crate::consensus::highway::lnc::forks_told(
            s,
            endorsed,
            eq_idx,
            panorama,
            crate::consensus::highway::lnc::LncForks::Single(tip),
        ),
    ensures
        ({
            let g = crate::consensus::highway::graph::units_of(s);
            &&& path.len() > 0
            &&& panorama.contains(Observation::Correct(path[0]))
            &&& forall|i: int|
                0 <= i < path.len() ==> g.contains_key(#[trigger] path[i]) && !endorsed.any(
                    |e: C::Hash| crate::consensus::highway::graph::sees(s, e, path[i]),
                )
            &&& forall|i: int|
                0 <= i < path.len() - 1 ==> g[#[trigger] path[i]].panorama.observations@[eq_idx.0 as int] is Faulty
                    && g[path[i]].panorama.observations@.contains(Observation::Correct(path[i + 1]))
            &&& g[path.last()].panorama.observations@[eq_idx.0 as int] == Observation::Correct(tip)
            &&& !endorsed.any(|e: C::Hash| crate::consensus::highway::graph::sees(s, e, tip))
            &&& g.contains_key(tip) && g[tip].creator == eq_idx
        }),
{
    let c = choose|c: C::Hash| #[trigger] crate::consensus::highway::panorama::cites(panorama, c)
        && crate::consensus::highway::lnc::cites_naively(s, endorsed, eq_idx, c, tip);
    let i = choose|i: int| 0 <= i < panorama.len() && #[trigger] panorama[i] == Observation::Correct(c);
    assert(panorama.contains(panorama[i]));
    crate::consensus::highway::lnc::lemma_naive_unit(s, n, endorsed, eq_idx, c, tip);
    lemma_naive_path(s, n, endorsed, eq_idx, c, tip)
}

/// The votes over which a vote of the author is reached.
proof fn lemma_naive_path<C: ContextTypes>(
    s: crate::consensus::highway::graph::UnitOrder<C>,
    n: int,
    endorsed: Seq<C::Hash>,
    eq_idx: ValidatorIndex,
    h: C::Hash,
    x: C::Hash,
) -> (path: Seq<C::Hash>)
    requires
        crate::consensus::highway::graph::graph_wf(s, n),
        eq_idx.0 < n,
        crate::consensus::highway::lnc::cites_naively(s, endorsed, eq_idx, h, x),
    ensures
        ({
            let g = crate::consensus::highway::graph::units_of(s);
            &&& path.len() > 0
            &&& path[0] == h
            &&& forall|i: int|
                0 <= i < path.len() ==> g.contains_key(#[trigger] path[i]) && !endorsed.any(
                    |e: C::Hash| crate::consensus::highway::graph::sees(s, e, path[i]),
                )
            &&& forall|i: int|
                0 <= i < path.len() - 1 ==> g[#[trigger] path[i]].panorama.observations@[eq_idx.0 as int] is Faulty
                    && g[path[i]].panorama.observations@.contains(Observation::Correct(path[i + 1]))
            &&& g[path.last()].panorama.observations@[eq_idx.0 as int] == Observation::Correct(x)
            &&& !endorsed.any(|e: C::Hash| crate::consensus::highway::graph::sees(s, e, x))
        }),
    decreases crate::collections::key_index(s, h),
{
    let g = crate::consensus::highway::graph::units_of(s);
    crate::consensus::highway::graph::lemma_position(s, n, h);
    lemma_not_seen(s, endorsed, h);
    match crate::consensus::highway::unit::sees_of(&*g[h], eq_idx) {
        Observation::Faulty => {
            let i = choose|i: int|
                {
                    &&& 0 <= i < g[h].panorama.observations@.len()
                    &&& #[trigger] g[h].panorama.observations@[i] matches Observation::Correct(c) && crate::collections::has_key(s, c)
                        && 0 <= crate::collections::key_index(s, c) < crate::collections::key_index(s, h)
                        && crate::consensus::highway::lnc::cites_naively(s, endorsed, eq_idx, c, x)
                };
            let c = g[h].panorama.observations@[i]->Correct_0;
            let rest = lemma_naive_path(s, n, endorsed, eq_idx, c, x);
            let path = seq![h] + rest;
            assert forall|k: int| 0 <= k < path.len() implies g.contains_key(#[trigger] path[k]) && !endorsed.any(
                |e: C::Hash| crate::consensus::highway::graph::sees(s, e, path[k]),
            ) by {
                if k > 0 {
                    assert(path[k] == rest[k - 1]);
                }
            }
            assert forall|k: int| 0 <= k < path.len() - 1 implies g[#[trigger] path[k]].panorama.observations@[eq_idx.0 as int] is Faulty
                && g[path[k]].panorama.observations@.contains(Observation::Correct(path[k + 1])) by {
                if k > 0 {
                    assert(path[k] == rest[k - 1]);
                    assert(path[k + 1] == rest[k]);
                } else {
                    assert(path[1] == rest[0]);
                }
            }
            path
        },
        _ => {
            lemma_not_seen(s, endorsed, x);
            seq![h]
        },
    }
}

proof fn lemma_not_seen<C: ContextTypes>(s: crate::consensus::highway::graph::UnitOrder<C>, endorsed: Seq<C::Hash>, h: C::Hash)
    ensures
        crate::consensus::highway::lnc::seen_by_endorsed(s, endorsed, h) == endorsed.any(
            |e: C::Hash| crate::consensus::highway::graph::sees(s, e, h),
        ),
{
    let f = |e: C::Hash| crate::consensus::highway::graph::sees(s, e, h);
    if endorsed.any(f) {
        let k = choose|k: int| 0 <= k < endorsed.len() && f(#[trigger] endorsed[k]);
        assert(crate::consensus::highway::graph::sees(s, endorsed[k], h));
    }
    if crate::consensus::highway::lnc::seen_by_endorsed(s, endorsed, h) {
        let k = choose|k: int| 0 <= k < endorsed.len() && crate::consensus::highway::graph::sees(s, #[trigger] endorsed[k], h);
        assert(f(endorsed[k]));
    }
}

/// Those against whom there is evidence are exactly the validators with such evidence, in order.
pub proof fn law_validators_with_evidence<C: ContextTypes>(
    m: crate::consensus::highway::HighwayModel<C>,
    n: int,
    id: C::ValidatorId,
)
    requires
        0 <= n <= m.validators.len() <= u32::MAX,
    ensures
        ({
            let ids = crate::consensus::highway::ids_with_evidence(m, n);
            &&& ids.len() <= n
            &&& ids.contains(id) == (exists|i: int|
                {
                    &&& 0 <= i < n
                    &&& (#[trigger] m.validators[i]).id == id
                    &&& m.state.faults.contains_key(ValidatorIndex(i as u32))
                    &&& m.state.faults[ValidatorIndex(i as u32)] is Direct
                })
        }),
    decreases n,
{
    if n > 0 {
        law_validators_with_evidence(m, n - 1, id);
        let before = crate::consensus::highway::ids_with_evidence(m, n - 1);
        let ids = crate::consensus::highway::ids_with_evidence(m, n);
        let last = m.validators[n - 1].id;
        assert forall|x: C::ValidatorId| #[trigger] before.push(last).contains(x) == (before.contains(x) || x == last) by {
            if before.contains(x) {
                let k = before.index_of(x);
                assert(before.push(last)[k] == x);
            }
            if x == last {
                assert(before.push(last)[before.len() as int] == x);
            }
            if before.push(last).contains(x) && x != last {
                let k = before.push(last).index_of(x);
                assert(before[k] == x);
            }
        }
        assert(ids.contains(id) == (before.contains(id) || (m.state.has_evidence(ValidatorIndex((n - 1) as u32)) && id == last)));
        if before.contains(id) {
            let i = choose|i: int|
                {
                    &&& 0 <= i < n - 1
                    &&& (#[trigger] m.validators[i]).id == id
                    &&& m.state.faults.contains_key(ValidatorIndex(i as u32))
                    &&& m.state.faults[ValidatorIndex(i as u32)] is Direct
                };
            assert(m.validators[i].id == id);
        }
    }
}

/// What an active validator brings about: each vertex that it makes is added, in order, and it is
/// deactivated if it has equivocated; after that everything is passed on, in order.
pub proof fn law_effects_are_carried_out<C: ContextTypes>(effects: Seq<Effect<C>>, timestamp: Timestamp, i: int)
    requires
        0 <= i < effects.len(),
    ensures
        ({
            let steps = crate::consensus::highway::effect_steps(effects, timestamp);
            let all = steps + crate::consensus::highway::emitted(effects);
            &&& all.len() == steps.len() + effects.len()
            &&& all[steps.len() + i] == Action::Emit(effects[i])
            &&& effects[i] matches Effect::NewVertex(vv) ==> steps.contains(Action::AddVertex(vv, timestamp))
            &&& effects[i] is WeEquivocated ==> steps.contains(Action::Deactivate)
            &&& forall|k: int|
                0 <= k < steps.len() ==> match #[trigger] steps[k] {
                    Action::AddVertex(vv, t) => t == timestamp && effects.contains(Effect::NewVertex(vv)),
                    Action::Deactivate => exists|e: int| 0 <= e < effects.len() && #[trigger] effects[e] is WeEquivocated,
                    _ => false,
                }
        }),
    decreases effects.len(),
{
    let front = effects.drop_last();
    let before = crate::consensus::highway::effect_steps(front, timestamp);
    let steps = crate::consensus::highway::effect_steps(effects, timestamp);
    let last = effects.len() - 1;
    assert(forall|k: int| 0 <= k < before.len() ==> #[trigger] steps[k] == before[k]);
    if front.len() > 0 {
        law_effects_are_carried_out(
            front,
            timestamp,
            if i < last {
                i
            } else {
                0
            },
        );
        assert forall|k: int| 0 <= k < before.len() implies match #[trigger] before[k] {
            Action::AddVertex(vv, t) => t == timestamp && effects.contains(Effect::NewVertex(vv)),
            Action::Deactivate => exists|e: int| 0 <= e < effects.len() && #[trigger] effects[e] is WeEquivocated,
            _ => false,
        } by {
            match before[k] {
                Action::AddVertex(vv, t) => {
                    let j = front.index_of(Effect::NewVertex(vv));
                    assert(effects[j] == Effect::NewVertex(vv));
                },
                Action::Deactivate => {
                    let e = choose|e: int| 0 <= e < front.len() && #[trigger] front[e] is WeEquivocated;
                    assert(effects[e] is WeEquivocated);
                },
                _ => {},
            }
        }
    }
    assert(effects.contains(effects[last]));
    if i < last {
        assert(front[i] == effects[i]);
        match effects[i] {
            Effect::NewVertex(vv) => {
                let j = before.index_of(Action::AddVertex(vv, timestamp));
                assert(steps[j] == Action::AddVertex(vv, timestamp));
            },
            Effect::WeEquivocated(_) => {
                let j = before.index_of(Action::Deactivate);
                assert(steps[j] == Action::<C>::Deactivate);
            },
            _ => {},
        }
    } else {
        match effects[i] {
            Effect::NewVertex(vv) => {
                assert(steps[before.len() as int] == Action::AddVertex(vv, timestamp));
            },
            Effect::WeEquivocated(_) => {
                assert(steps[before.len() as int] == Action::<C>::Deactivate);
            },
            _ => {},
        }
    }
}

/// The list of those who endorse a vote has each of them once, from the lowest index on, with the
/// signature that was given.
pub proof fn law_endorsers_are_listed<S>(n: int, endorsers: Map<ValidatorIndex, S>, idx: ValidatorIndex, signature: S)
    requires
        0 <= n <= u32::MAX,
    ensures
        ({
            let list = crate::consensus::highway::state::endorser_list(n, endorsers);
            &&& list.contains((idx, signature)) == (idx.0 < n && endorsers.contains_key(idx) && endorsers[idx] == signature)
            &&& forall|i: int| 0 <= i < list.len() ==> (#[trigger] list[i]).0.0 < n
            &&& forall|i: int, j: int| 0 <= i < j < list.len() ==> (#[trigger] list[i]).0.0 < (#[trigger] list[j]).0.0
        }),
    decreases n,
{
    if n > 0 {
        law_endorsers_are_listed(n - 1, endorsers, idx, signature);
        let before = crate::consensus::highway::state::endorser_list(n - 1, endorsers);
        let list = crate::consensus::highway::state::endorser_list(n, endorsers);
        let last = ValidatorIndex((n - 1) as u32);
        if before.contains((idx, signature)) {
            let k = before.index_of((idx, signature));
            assert(list[k] == (idx, signature));
        }
        if endorsers.contains_key(last) {
            assert(list[before.len() as int] == (last, endorsers[last]));
        }
        if list.contains((idx, signature)) {
            let k = list.index_of((idx, signature));
            if k < before.len() {
                assert(before[k] == (idx, signature));
            }
        }
    }
}

/// A vertex that is known already changes nothing and brings nothing about: a vote under its hash,
/// evidence against a validator who was shown to be faulty, and endorsements of a vote that is endorsed or
/// that has all of them. Adding any vertex leaves the instance, its validators and whether this node is
/// active.
pub proof fn law_known_vertices_change_nothing<C: Context>(
    m: crate::consensus::highway::HighwayModel<C>,
    vertex: Vertex<C>,
    now: Timestamp,
    fork_choice: Option<C::Hash>,
    post: crate::consensus::highway::HighwayModel<C>,
    actions: Seq<Action<C>>,
)
    requires
        m.vertex_added(vertex, now, fork_choice, post, actions),
    ensures
        post.instance_id == m.instance_id,
        post.validators == m.validators,
        post.active == m.active,
        ({
            let known = match vertex {
                Vertex::Vote(vote) => crate::consensus::highway::graph::units_of(m.state.units).contains_key(
                    C::vote_hash(vote.wire_vote@),
                ),
                Vertex::Evidence(evidence) => match *evidence {
                    Evidence::Equivocation(vote0, _) => m.state.faults.contains_key(vote0.wire_vote.creator)
                        && m.state.faults[vote0.wire_vote.creator] is Direct,
                },
                Vertex::Endorsements(e) => m.state.is_endorsed(e.vote) || (m.state.endorsements.contains_key(e.vote) && forall|i: int|
                    0 <= i < e.endorsers@.len() ==> m.state.endorsements[e.vote].contains_key((#[trigger] e.endorsers@[i]).0)),
            };
            known ==> post.state == m.state && actions.len() == 0
        }),
{
}

/// More than one fork is reported only where there are two votes of the validator, each reached from a
/// cited vote over votes that take the validator for faulty, neither seen by an endorsed vote, and neither
/// behind the other.
pub proof fn law_reported_forks_differ<C: ContextTypes>(
    s: crate::consensus::highway::graph::UnitOrder<C>,
    n: int,
    endorsed: Seq<C::Hash>,
    eq_idx: ValidatorIndex,
    panorama: Seq<Observation<C::Hash>>,
) -> (out: (C::Hash, Seq<C::Hash>, C::Hash, Seq<C::Hash>))
    requires
        crate::consensus::highway::graph::graph_wf(s, n),
        eq_idx.0 < n,
        crate::consensus::highway::lnc::forks_told(
            s,
            endorsed,
            eq_idx,
            panorama,
            crate::consensus::highway::lnc::LncForks::Multiple,
        ),
    ensures
        ({
            let g = crate::consensus::highway::graph::units_of(s);
            let (x, to_x, y, to_y) = out;
            &&& !crate::consensus::highway::graph::sees_correct(s, x, y)
            &&& !crate::consensus::highway::graph::sees_correct(s, y, x)
            &&& g.contains_key(x) && g[x].creator == eq_idx
            &&& g.contains_key(y) && g[y].creator == eq_idx
            &&& to_x.len() > 0 && panorama.contains(Observation::Correct(to_x[0]))
            &&& to_y.len() > 0 && panorama.contains(Observation::Correct(to_y[0]))
            &&& g[to_x.last()].panorama.observations@[eq_idx.0 as int] == Observation::Correct(x)
            &&& g[to_y.last()].panorama.observations@[eq_idx.0 as int] == Observation::Correct(y)
            &&& !endorsed.any(|e: C::Hash| crate::consensus::highway::graph::sees(s, e, x))
            &&& !endorsed.any(|e: C::Hash| crate::consensus::highway::graph::sees(s, e, y))
        }),
{
    let (x, y) = choose|x: C::Hash, y: C::Hash|
        {
            &&& #[trigger] crate::consensus::highway::lnc::naive_in(s, endorsed, eq_idx, panorama, x)
            &&& #[trigger] crate::consensus::highway::lnc::naive_in(s, endorsed, eq_idx, panorama, y)
            &&& !crate::consensus::highway::graph::sees_correct(s, x, y)
            &&& !crate::consensus::highway::graph::sees_correct(s, y, x)
        };
    let to_x = lemma_naive_from_panorama(s, n, endorsed, eq_idx, panorama, x);
    let to_y = lemma_naive_from_panorama(s, n, endorsed, eq_idx, panorama, y);
    (x, to_x, y, to_y)
}

proof fn lemma_naive_from_panorama<C: ContextTypes>(
    s: crate::consensus::highway::graph::UnitOrder<C>,
    n: int,
    endorsed: Seq<C::Hash>,
    eq_idx: ValidatorIndex,
    panorama: Seq<Observation<C::Hash>>,
    x: C::Hash,
) -> (path: Seq<C::Hash>)
    requires
        crate::consensus::highway::graph::graph_wf(s, n),
        eq_idx.0 < n,
        crate::consensus::highway::lnc::naive_in(s, endorsed, eq_idx, panorama, x),
    ensures
        ({
            let g = crate::consensus::highway::graph::units_of(s);
            &&& path.len() > 0
            &&& panorama.contains(Observation::Correct(path[0]))
            &&& g[path.last()].panorama.observations@[eq_idx.0 as int] == Observation::Correct(x)
            &&& !endorsed.any(|e: C::Hash| crate::consensus::highway::graph::sees(s, e, x))
            &&& g.contains_key(x) && g[x].creator == eq_idx
        }),
{
    let c = choose|c: C::Hash| #[trigger] crate::consensus::highway::panorama::cites(panorama, c)
        && crate::consensus::highway::lnc::cites_naively(s, endorsed, eq_idx, c, x);
    let i = choose|i: int| 0 <= i < panorama.len() && #[trigger] panorama[i] == Observation::Correct(c);
    assert(panorama.contains(panorama[i]));
    crate::consensus::highway::lnc::lemma_naive_unit(s, n, endorsed, eq_idx, c, x);
    lemma_naive_path(s, n, endorsed, eq_idx, c, x)
}

/// A vote that takes a validator for faulty passes on every vote of that validator that is reached from a
/// vote that it cites, unless an endorsed vote has seen it.
pub proof fn law_forks_are_reached_through_others<C: ContextTypes>(
    s: crate::consensus::highway::graph::UnitOrder<C>,
    n: int,
    endorsed: Seq<C::Hash>,
    eq_idx: ValidatorIndex,
    h: C::Hash,
    i: int,
    c: C::Hash,
    x: C::Hash,
)
    requires
        crate::consensus::highway::graph::graph_wf(s, n),
        eq_idx.0 < n,
        crate::consensus::highway::graph::units_of(s).contains_key(h),
        crate::consensus::highway::graph::units_of(s)[h].panorama.observations@[eq_idx.0 as int] is Faulty,
        0 <= i < n,
        crate::consensus::highway::graph::units_of(s)[h].panorama.observations@[i] == Observation::Correct(c),
        forall|k: int| 0 <= k < endorsed.len() ==> !crate::consensus::highway::graph::sees(s, #[trigger] endorsed[k], h),
        crate::consensus::highway::lnc::cites_naively(s, endorsed, eq_idx, c, x),
    ensures
        crate::consensus::highway::lnc::cites_naively(s, endorsed, eq_idx, h, x),
{
    crate::consensus::highway::graph::lemma_position(s, n, h);
    assert(crate::consensus::highway::graph::cited_right(s, crate::collections::key_index(s, h), i, c));
    crate::consensus::highway::graph::lemma_position(s, n, c);
    assert(crate::collections::has_key(s, c));
    assert(!crate::consensus::highway::lnc::seen_by_endorsed(s, endorsed, h));
}

/// The endorsements among what an active validator brings about are counted one after another, and nothing
/// else is.
pub proof fn law_own_endorsements_are_counted<C: ContextTypes>(
    m: crate::consensus::highway::state::StateModel<C>,
    effects: Seq<Effect<C>>,
    last: Effect<C>,
)
    ensures
        crate::consensus::highway::with_effect_endorsements(m, Seq::empty()) == m,
        match last {
            Effect::NewVertex(ValidVertex(Vertex::Endorsements(e))) => crate::consensus::highway::with_effect_endorsements(
                m,
                effects.push(last),
            ) == crate::consensus::highway::with_effect_endorsements(m, effects).with_endorsements(*e),
            _ => crate::consensus::highway::with_effect_endorsements(m, effects.push(last))
                == crate::consensus::highway::with_effect_endorsements(m, effects),
        },
{
    assert(effects.push(last).drop_last() =~= effects);
}

/// Why a vote does not pass the first test: each error tells the first thing that is wrong.
pub proof fn law_errors_of_the_first_test<C: Context>(m: crate::consensus::highway::HighwayModel<C>, vote: Rc<SignedWireVote<C>>)
    ensures
        ({
            let w = vote.wire_vote;
            let obs = w.panorama.observations@;
            let c = w.creator.0 as int;
            let member = c < m.validators.len();
            let ours = member && w.instance_id == m.instance_id;
            let signed = ours && C::signed_by(C::vote_hash(w@), m.validators[c].id, vote.signature);
            let allowed = signed && !(m.state.faults.contains_key(w.creator) && m.state.faults[w.creator] is Banned);
            let not_short = allowed && m.state.params.spec_min_round_exp() <= w.round_exp;
            let not_long = not_short && w.round_exp < 64;
            let with_block = not_long && (w.value is Some || exists|i: int| 0 <= i < obs.len() && #[trigger] obs[i] is Correct);
            let complete = with_block && obs.len() == m.state.weights.len();
            match m.vertex_flaw(Vertex::Vote(vote)) {
                None => complete,
                Some(VertexError::Vote(VoteError::Creator)) => !member,
                Some(VertexError::Vote(VoteError::InstanceId)) => member && !ours,
                Some(VertexError::Vote(VoteError::Signature)) => ours && !signed,
                Some(VertexError::Vote(VoteError::Banned)) => signed && !allowed,
                Some(VertexError::Vote(VoteError::RoundLengthExpLessThanMinimum)) => allowed && !not_short,
                Some(VertexError::Vote(VoteError::RoundLengthExpGreaterThanMaximum)) => not_short && !not_long,
                Some(VertexError::Vote(VoteError::MissingBlock)) => not_long && !with_block,
                Some(VertexError::Vote(VoteError::PanoramaLength)) => with_block && !complete,
                Some(VertexError::Vote(VoteError::FaultyCreator)) => complete && c < obs.len() && obs[c] is Faulty,
                Some(_) => false,
            }
        }),
{
}

/// Why evidence is refused: each error tells the first thing that is wrong.
pub proof fn law_errors_of_evidence<C: Context>(
    m: crate::consensus::highway::HighwayModel<C>,
    vote0: Rc<SignedWireVote<C>>,
    vote1: Rc<SignedWireVote<C>>,
    evidence: Rc<Evidence<C>>,
)
    requires
        *evidence == Evidence::Equivocation(vote0, vote1),
    ensures
        ({
            let c = vote0.wire_vote.creator.0 as int;
            let member = c < m.validators.len();
            let by_one = member && vote1.wire_vote.creator == vote0.wire_vote.creator;
            let at_once = by_one && vote1.wire_vote.seq_number == vote0.wire_vote.seq_number;
            let ours = at_once && vote0.wire_vote.instance_id == m.instance_id && vote1.wire_vote.instance_id == m.instance_id;
            let differ = ours && !(vote0.wire_vote@ == vote1.wire_vote@ && vote0.signature == vote1.signature);
            match m.vertex_flaw(Vertex::Evidence(evidence)) {
                None => differ,
                Some(VertexError::Evidence(EvidenceError::UnknownPerpetrator)) => !member,
                Some(VertexError::Evidence(EvidenceError::EquivocationDifferentCreators)) => member && !by_one,
                Some(VertexError::Evidence(EvidenceError::EquivocationDifferentSeqNumbers)) => by_one && !at_once,
                Some(VertexError::Evidence(EvidenceError::EquivocationInstanceId)) => at_once && !ours,
                Some(VertexError::Evidence(EvidenceError::EquivocationSameVote)) => ours && !differ,
                Some(VertexError::Evidence(EvidenceError::Signature)) => differ && !(C::signed_by(
                    C::vote_hash(vote0.wire_vote@),
                    m.validators[c].id,
                    vote0.signature,
                ) && C::signed_by(C::vote_hash(vote1.wire_vote@), m.validators[c].id, vote1.signature)),
                Some(_) => false,
            }
        }),
{
}

/// Why a vote does not pass the second test: it cites a vote under the wrong validator, or else one that
/// is later than it, or its sequence number does not follow, or the round length changes within a round,
/// or it is the third of a round, or it has a value that it cannot have, there or behind a terminal block.
pub proof fn law_errors_of_the_second_test<C: Context>(
    m: crate::consensus::highway::state::StateModel<C>,
    vote: Rc<SignedWireVote<C>>,
    info: RoundInfo,
)
    requires
        m.vote_flaw(*vote) is None,
        m.first_missing(vote.wire_vote.panorama.observations@, 0) is None,
        m.weights.len() <= u32::MAX,
        vote.wire_vote.creator.0 < m.weights.len(),
    ensures
        ({
            let g = crate::consensus::highway::graph::units_of(m.units);
            let w = vote.wire_vote;
            let obs = w.panorama.observations@;
            let own = obs[w.creator.0 as int];
            let placed = forall|i: int|
                0 <= i < obs.len() ==> (#[trigger] obs[i] matches Observation::Correct(h) ==> g[h].creator.0 == i);
            let later = placed && exists|i: int|
                0 <= i < obs.len() && (#[trigger] obs[i] matches Observation::Correct(h) && g[h].timestamp.0 > w.timestamp.0);
            let in_time = placed && !later;
            let follows = in_time && match own {
                Observation::Correct(prev) => w.seq_number == g[prev].seq_number + 1,
                _ => w.seq_number == 0,
            };
            match m.placed_vote_flaw(*vote, info) {
                None => follows,
                Some(VoteError::PanoramaIndex) => !placed,
                Some(VoteError::Timestamps) => later,
                Some(VoteError::SequenceNumber) => in_time && !follows,
                Some(VoteError::RoundLength) => follows && (own matches Observation::Correct(prev) && g[prev].round_exp != w.round_exp),
                Some(VoteError::ThreeVotesInRound) => follows && (own matches Observation::Correct(prev)
                    && g[prev].panorama.observations@[g[prev].creator.0 as int] is Correct),
                Some(VoteError::UnexpectedBlock) => follows && w.value is Some,
                Some(VoteError::ValueAfterTerminalBlock) => follows && w.value is Some && info.terminal && info.leader == w.creator,
                Some(_) => false,
            }
        }),
{
    let g = crate::consensus::highway::graph::units_of(m.units);
    let w = vote.wire_vote;
    let obs = w.panorama.observations@;
    lemma_missing_from(m, obs, 0);
    let placed = forall|i: int|
        0 <= i < obs.len() ==> (#[trigger] obs[i] matches Observation::Correct(h) ==> g[h].creator.0 == i);
    assert(m.misplaced(obs) == !placed);
    let later = exists|i: int|
        0 <= i < obs.len() && (#[trigger] obs[i] matches Observation::Correct(h) && g[h].timestamp.0 > w.timestamp.0);
    assert(m.cites_later(obs, w.timestamp) == later) by {
        if later {
            let i = choose|i: int|
                0 <= i < obs.len() && (#[trigger] obs[i] matches Observation::Correct(h) && g[h].timestamp.0 > w.timestamp.0);
            assert(obs[i] is Correct);
        }
        if m.cites_later(obs, w.timestamp) {
            let i = choose|i: int|
                0 <= i < obs.len() && (#[trigger] obs[i] matches Observation::Correct(h) && g.contains_key(h) && g[h].timestamp.0
                    > w.timestamp.0);
            assert(obs[i] is Correct);
        }
    }
}

} // verus!
