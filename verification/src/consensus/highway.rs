//! The Highway protocol.

pub mod context;
pub mod evidence;
pub mod graph;
pub mod laws;
pub mod lnc;
pub mod panorama;
pub mod state;
pub mod unit;
pub mod validators;
pub mod vertex;

use crate::collections::MapKey;
use crate::consensus::highway::context::{Context, ContextTypes};
use crate::consensus::highway::evidence::{Evidence, EvidenceError};
use crate::consensus::highway::state::{Fault, Params, RoundInfo, State, VoteError};
use crate::consensus::highway::validators::{ValidatorIndex, Validators};
use crate::consensus::highway::vertex::{Dependency, Endorsements, SignedWireVote, Vertex};
use crate::consensus::BlockContext;
use crate::timestamp::Timestamp;
use std::rc::Rc;
use vstd::prelude::*;

verus! {

/// An error due to an invalid endorsement.
#[derive(Clone, Copy, Debug, PartialEq, Eq, Structural)]
pub enum EndorsementError {
    /// The creator is not a validator.
    Creator,
    /// The signature is invalid.
    Signature,
}

/// An error due to an invalid vertex.
#[derive(Clone, Copy, Debug, PartialEq, Eq, Structural)]
pub enum VertexError {
    /// The vertex contains an invalid vote.
    Vote(VoteError),
    /// The vertex contains invalid evidence.
    Evidence(EvidenceError),
    /// The endorsements contain an invalid entry.
    Endorsement(EndorsementError),
}

/// A vertex that has passed initial validation.
///
/// The vertex could not be determined to be invalid based on its contents alone. The remaining
/// checks will be applied once all of its dependencies have been added to `Highway`. (See
/// `ValidVertex`.)
pub struct PreValidatedVertex<C: ContextTypes>(pub Vertex<C>);

impl<C: ContextTypes> PreValidatedVertex<C> {
    /// Returns the vertex.
    pub fn inner(&self) -> (r: &Vertex<C>)
        ensures
            *r == self.0,
    {
        &self.0
    }

    /// Returns the vertex's timestamp, if it has one.
    pub fn timestamp(&self) -> (r: Option<Timestamp>)
        ensures
            r == match self.0 {
                Vertex::Vote(vote) => Some(vote.wire_vote.timestamp),
                _ => None,
            },
    {
        self.0.timestamp()
    }

    /// Turns this into the vertex.
    pub fn into_vertex(self) -> (r: Vertex<C>)
        ensures
            r == self.0,
    {
        self.0
    }
}

impl<C: ContextTypes> From<ValidVertex<C>> for PreValidatedVertex<C> {
    fn from(vv: ValidVertex<C>) -> (r: PreValidatedVertex<C>) {
        PreValidatedVertex(vv.0)
    }
}

impl<C: ContextTypes> vstd::std_specs::convert::FromSpecImpl<ValidVertex<C>> for PreValidatedVertex<C> {
    open spec fn obeys_from_spec() -> bool {
        true
    }

    open spec fn from_spec(vv: ValidVertex<C>) -> PreValidatedVertex<C> {
        PreValidatedVertex(vv.0)
    }
}

impl<C: ContextTypes> From<ValidVertex<C>> for Vertex<C> {
    fn from(vv: ValidVertex<C>) -> (r: Vertex<C>) {
        vv.0
    }
}

impl<C: ContextTypes> vstd::std_specs::convert::FromSpecImpl<ValidVertex<C>> for Vertex<C> {
    open spec fn obeys_from_spec() -> bool {
        true
    }

    open spec fn from_spec(vv: ValidVertex<C>) -> Vertex<C> {
        vv.0
    }
}

impl<C: ContextTypes> From<PreValidatedVertex<C>> for Vertex<C> {
    fn from(pvv: PreValidatedVertex<C>) -> (r: Vertex<C>) {
        pvv.0
    }
}

impl<C: ContextTypes> vstd::std_specs::convert::FromSpecImpl<PreValidatedVertex<C>> for Vertex<C> {
    open spec fn obeys_from_spec() -> bool {
        true
    }

    open spec fn from_spec(pvv: PreValidatedVertex<C>) -> Vertex<C> {
        pvv.0
    }
}

/// A vertex that has been validated: `Highway` has all its dependencies and can add it to its
/// protocol state.
///
/// Note that this must only be added to the `Highway` instance that created it.
pub struct ValidVertex<C: ContextTypes>(pub Vertex<C>);

impl<C: ContextTypes> ValidVertex<C> {
    /// Returns the vertex.
    pub fn inner(&self) -> (r: &Vertex<C>)
        ensures
            *r == self.0,
    {
        &self.0
    }

    /// Returns whether the vertex is a vote that proposes a value.
    pub fn is_proposal(&self) -> (r: bool)
        ensures
            r == (self.0.spec_value() is Some),
    {
        self.0.value().is_some()
    }

    /// Returns the endorsements, if the vertex contains such.
    pub fn endorsements(&self) -> (r: Option<&Rc<Endorsements<C>>>)
        ensures
            match r {
                Some(e) => self.0 == Vertex::Endorsements(*e),
                None => !(self.0 is Endorsements),
            },
    {
        match &self.0 {
            Vertex::Endorsements(endorsements) => Some(endorsements),
            Vertex::Evidence(_) | Vertex::Vote(_) => None,
        }
    }

    /// Returns another handle on the same vertex.
    pub fn share(&self) -> (r: ValidVertex<C>)
        ensures
            r == *self,
    {
        ValidVertex(self.0.share())
    }
}

/// A result indicating whether and how a requested dependency is satisfied.
pub enum GetDepOutcome<C: ContextTypes> {
    /// We don't have this dependency.
    Missing,
    /// This vertex satisfies the dependency.
    Vertex(ValidVertex<C>),
    /// The dependency must be satisfied by providing evidence against this faulty validator, but
    /// this `Highway` instance does not have direct evidence.
    Evidence(C::ValidatorId),
}

/// An action taken by a validator.
pub enum Effect<C: ContextTypes> {
    /// A newly created vertex that should be gossiped to all nodes.
    NewVertex(ValidVertex<C>),
    /// `handle_timer` needs to be called at the specified time.
    ScheduleTimer(Timestamp),
    /// `propose` needs to be called with a value for a new block with the specified block context.
    RequestNewBlock(BlockContext),
    /// This validator is faulty.
    WeEquivocated(Rc<Evidence<C>>),
}

/// Something for the surroundings of a protocol instance to do, in order and one after the other.
pub enum Action<C: ContextTypes> {
    /// Let the active validator react to a new vote and hand in its effects with
    /// `apply_active_effects`.
    OnNewVote {
        vhash: C::Hash,
        timestamp: Timestamp,
    },
    /// Let the active validator react to new evidence and hand in its effects with
    /// `apply_evidence_effects`.
    OnNewEvidence(Rc<Evidence<C>>),
    /// Let the active validator react to a timer and hand in its effects with
    /// `apply_active_effects`.
    HandleTimer(Timestamp),
    /// Let the active validator propose a value and hand in its effects with
    /// `apply_active_effects`.
    Propose {
        value: C::ConsensusValue,
        block_context: BlockContext,
    },
    /// Call `add_valid_vertex`.
    AddVertex(ValidVertex<C>, Timestamp),
    /// Call `deactivate_validator`.
    Deactivate,
    /// Carry out an effect.
    Emit(Effect<C>),
}

/// The validator that this node is.
#[derive(Clone, Copy, Debug, PartialEq, Eq, Structural)]
pub struct ActiveValidator {
    /// Our own validator index.
    pub vidx: ValidatorIndex,
    /// The round exponent for our next round.
    pub next_round_exp: u8,
}

/// A passive instance of the Highway protocol, containing its local state.
///
/// Both observers and active validators must instantiate this, pass in all incoming vertices from
/// peers, and use a finality detector to determine the outcome of the consensus process.
pub struct Highway<C: ContextTypes> {
    /// The protocol instance ID. This needs to be unique, to prevent replay attacks.
    instance_id: C::InstanceId,
    /// The validator IDs and weight map.
    validators: Validators<C::ValidatorId>,
    /// The abstract protocol state.
    state: State<C>,
    /// The active validator, who is participating and creating new vertices.
    active_validator: Option<ActiveValidator>,
}

/// An instance of the Highway protocol.
#[verifier::ext_equal]
pub ghost struct HighwayModel<C: ContextTypes> {
    pub instance_id: C::InstanceId,
    pub validators: Seq<validators::Validator<C::ValidatorId>>,
    pub state: state::StateModel<C>,
    pub active: Option<ActiveValidator>,
}

impl<C: ContextTypes> View for Highway<C> {
    type V = HighwayModel<C>;

    closed spec fn view(&self) -> HighwayModel<C> {
        HighwayModel {
            instance_id: self.instance_id,
            validators: self.validators@,
            state: self.state@,
            active: self.active_validator,
        }
    }
}

impl<C: Context> HighwayModel<C> {
    /// What is wrong with the endorsements from position `from` on, if anything is.
    pub open spec fn endorsement_flaw(self, e: Endorsements<C>, from: int) -> Option<EndorsementError>
        decreases e.endorsers@.len() - from,
    {
        if from < 0 || from >= e.endorsers@.len() {
            None
        } else {
            let (idx, signature) = e.endorsers@[from];
            if idx.0 >= self.validators.len() {
                Some(EndorsementError::Creator)
            } else if !C::signed_by(C::endorsement_hash(e.vote, idx), self.validators[idx.0 as int].id, signature) {
                Some(EndorsementError::Signature)
            } else {
                self.endorsement_flaw(e, from + 1)
            }
        }
    }

    /// What is wrong with a vertex on its own, if anything is.
    pub open spec fn vertex_flaw(self, vertex: Vertex<C>) -> Option<VertexError> {
        match vertex {
            Vertex::Vote(vote) => {
                let creator = vote.wire_vote.creator;
                if creator.0 >= self.validators.len() {
                    Some(VertexError::Vote(VoteError::Creator))
                } else if vote.wire_vote.instance_id != self.instance_id {
                    Some(VertexError::Vote(VoteError::InstanceId))
                } else if !C::signed_by(
                    C::vote_hash(vote.wire_vote@),
                    self.validators[creator.0 as int].id,
                    vote.signature,
                ) {
                    Some(VertexError::Vote(VoteError::Signature))
                } else {
                    match self.state.vote_flaw(*vote) {
                        Some(e) => Some(VertexError::Vote(e)),
                        None => None,
                    }
                }
            },
            Vertex::Evidence(evidence) => {
                if evidence.accused().0 >= self.validators.len() {
                    Some(VertexError::Evidence(EvidenceError::UnknownPerpetrator))
                } else {
                    match evidence.flaw(self.validators[evidence.accused().0 as int].id, self.instance_id) {
                        Some(e) => Some(VertexError::Evidence(e)),
                        None => None,
                    }
                }
            },
            Vertex::Endorsements(endorsements) => match self.endorsement_flaw(*endorsements, 0) {
                Some(e) => Some(VertexError::Endorsement(e)),
                None => None,
            },
        }
    }

    /// The first dependency of a vertex that is missing.
    pub open spec fn missing(self, vertex: Vertex<C>) -> Option<Dependency<C>> {
        match vertex {
            Vertex::Evidence(_) => None,
            Vertex::Endorsements(endorsements) => if self.state.has_vote(endorsements.vote) {
                None
            } else {
                Some(Dependency::Vote(endorsements.vote))
            },
            Vertex::Vote(vote) => match self.state.first_missing(vote.wire_vote.panorama.observations@, 0) {
                Some(d) => Some(d),
                None => match self.state.first_unendorsed(vote.wire_vote.endorsed@, 0) {
                    Some(h) => Some(Dependency::Endorsement(h)),
                    None => None,
                },
            },
        }
    }

    /// What is wrong with a vertex whose dependencies are all there, if anything is.
    pub open spec fn placed_vertex_flaw(self, vertex: Vertex<C>, info: RoundInfo) -> Option<VertexError> {
        match vertex {
            Vertex::Vote(vote) => match self.state.placed_vote_flaw(*vote, info) {
                Some(e) => Some(VertexError::Vote(e)),
                None => None,
            },
            _ => None,
        }
    }

    /// The vertex is part of the protocol state.
    pub open spec fn has_vertex(self, vertex: Vertex<C>) -> bool {
        match vertex {
            Vertex::Vote(vote) => self.state.has_vote(C::vote_hash(vote.wire_vote@)),
            Vertex::Evidence(evidence) => self.state.has_evidence(evidence.accused()),
            Vertex::Endorsements(e) => self.state.is_endorsed(e.vote) || (forall|i: int|
                0 <= i < e.endorsers@.len() ==> self.state.endorsers(e.vote).contains_key((#[trigger] e.endorsers@[i]).0)),
        }
    }

    /// The vertex can be added to the protocol state.
    pub open spec fn vertex_fits(self, vertex: Vertex<C>) -> bool {
        match vertex {
            Vertex::Vote(vote) => self.state.vote_fits(*vote),
            Vertex::Evidence(evidence) => evidence.accused().0 < self.validators.len(),
            Vertex::Endorsements(_) => true,
        }
    }

    /// What follows new evidence: the active validator reacts to it, and it is gossiped.
    pub open spec fn evidence_actions(self, evidence: Rc<Evidence<C>>) -> Seq<Action<C>> {
        let gossip = Action::Emit(Effect::NewVertex(ValidVertex(Vertex::Evidence(evidence))));
        if self.active is Some {
            seq![Action::OnNewEvidence(evidence), gossip]
        } else {
            seq![gossip]
        }
    }

    /// What follows a new vote: the active validator reacts to it.
    pub open spec fn vote_actions(self, vhash: C::Hash, timestamp: Timestamp) -> Seq<Action<C>> {
        if self.active is Some {
            seq![Action::OnNewVote { vhash, timestamp }]
        } else {
            seq![]
        }
    }

    /// The vertex leads from this state to `post` and causes `actions`.
    pub open spec fn vertex_added(
        self,
        vertex: Vertex<C>,
        now: Timestamp,
        fork_choice: Option<C::Hash>,
        post: HighwayModel<C>,
        actions: Seq<Action<C>>,
    ) -> bool {
        &&& post.instance_id == self.instance_id
        &&& post.validators == self.validators
        &&& post.active == self.active
        &&& if self.has_vertex(vertex) {
            post.state == self.state && actions == Seq::<Action<C>>::empty()
        } else {
            match vertex {
                Vertex::Vote(vote) => {
                    let hash = C::vote_hash(vote.wire_vote@);
                    let c = vote.wire_vote.creator;
                    &&& exists|unit: Rc<unit::Unit<C>>|
                        {
                            &&& unit.is_of(graph::units_of(self.state.units), *vote, fork_choice)
                            &&& #[trigger] post.state.is_with_vote(self.state, hash, vote, unit)
                        }
                    &&& actions == (if !self.state.faults.contains_key(c) && post.state.has_evidence(c) {
                        self.evidence_actions(post.state.faults[c]->Direct_0)
                    } else {
                        seq![]
                    }) + self.vote_actions(hash, now)
                },
                Vertex::Evidence(evidence) => {
                    &&& post.state == self.state.with_evidence(evidence)
                    &&& actions == if self.state.faults.contains_key(evidence.accused()) && self.state.faults[evidence.accused()] is Banned {
                        seq![]
                    } else {
                        self.evidence_actions(evidence)
                    }
                },
                Vertex::Endorsements(endorsements) => {
                    &&& post.state == self.state.with_endorsements(*endorsements)
                    &&& actions == Seq::<Action<C>>::empty()
                },
            }
        }
    }
}

/// The state after all endorsements among the effects were added.
pub open spec fn with_effect_endorsements<C: ContextTypes>(m: state::StateModel<C>, effects: Seq<Effect<C>>) -> state::StateModel<C>
    decreases effects.len(),
{
    if effects.len() == 0 {
        m
    } else {
        let before = with_effect_endorsements(m, effects.drop_last());
        match effects.last() {
            Effect::NewVertex(ValidVertex(Vertex::Endorsements(e))) => before.with_endorsements(*e),
            _ => before,
        }
    }
}

/// The endorsements among the effects are of votes that are there.
pub open spec fn endorsing_known<C: ContextTypes>(m: state::StateModel<C>, effects: Seq<Effect<C>>) -> bool {
    forall|i: int|
        0 <= i < effects.len() ==> (#[trigger] effects[i] matches Effect::NewVertex(ValidVertex(Vertex::Endorsements(e)))
            ==> m.has_vote(e.vote))
}

/// What the effects of the active validator do to the protocol instance: new vertices are added,
/// and a validator who equivocated is deactivated.
pub open spec fn effect_steps<C: ContextTypes>(effects: Seq<Effect<C>>, timestamp: Timestamp) -> Seq<Action<C>>
    decreases effects.len(),
{
    if effects.len() == 0 {
        Seq::empty()
    } else {
        let before = effect_steps(effects.drop_last(), timestamp);
        match effects.last() {
            Effect::NewVertex(vv) => before.push(Action::AddVertex(vv, timestamp)),
            Effect::WeEquivocated(_) => before.push(Action::Deactivate),
            _ => before,
        }
    }
}

/// The effects are carried out.
pub open spec fn emitted<C: ContextTypes>(effects: Seq<Effect<C>>) -> Seq<Action<C>> {
    effects.map_values(|e: Effect<C>| Action::Emit(e))
}

/// The IDs of those among the first `n` validators against whom there is evidence.
pub open spec fn ids_with_evidence<C: ContextTypes>(m: HighwayModel<C>, n: int) -> Seq<C::ValidatorId>
    decreases n,
{
    if n <= 0 {
        Seq::empty()
    } else {
        let before = ids_with_evidence(m, n - 1);
        if m.state.has_evidence(ValidatorIndex((n - 1) as u32)) {
            before.push(m.validators[n - 1].id)
        } else {
            before
        }
    }
}

/// The weights of the validators.
pub open spec fn weights_of<VID>(s: Seq<validators::Validator<VID>>) -> Seq<u64> {
    s.map_values(|v: validators::Validator<VID>| v.weight)
}

/// The sum of the weights is the same whichever way it is told.
proof fn lemma_weights<VID>(s: Seq<validators::Validator<VID>>)
    ensures
        state::total(weights_of(s)) == validators::weight_sum(s),
    decreases s.len(),
{
    if s.len() > 0 {
        assert(weights_of(s).drop_last() =~= weights_of(s.drop_last()));
        lemma_weights(s.drop_last());
    }
}

impl<C: Context> Highway<C> {
    /// The protocol state is one of the validators.
    pub closed spec fn wf(&self) -> bool {
        &&& self.state.wf()
        &&& self.validators.wf()
        &&& self.state@.weights.len() == self.validators@.len()
    }

    /// Creates a new `Highway` instance. All participants must agree on the protocol parameters.
    ///
    /// Arguments:
    ///
    /// * `instance_id`: A unique identifier for every execution of the protocol (e.g. for every
    ///   era) to prevent replay attacks.
    /// * `validators`: The set of validators and their weights.
    /// * `params`: The Highway protocol parameters.
    pub fn new(instance_id: C::InstanceId, validators: Validators<C::ValidatorId>, params: Params) -> (r: Highway<C>)
        requires
            validators.wf(),
            validators::weight_sum(validators@) <= u64::MAX,
        ensures
            r.wf(),
            r@.instance_id == instance_id,
            r@.validators == validators@,
            r@.active is None,
            r@.state.params == params,
            r@.state.weights == weights_of(validators@),
            r@.state.units == graph::UnitOrder::<C>::empty(),
            r@.state.votes == Map::<C::Hash, Rc<SignedWireVote<C>>>::empty(),
            r@.state.endorsements == Map::<C::Hash, Map<ValidatorIndex, C::Signature>>::empty(),
            forall|idx: ValidatorIndex| #[trigger] r@.state.faults.contains_key(idx) == (idx.0 < validators@.len() && validators@[idx.0 as int].banned),
            forall|idx: ValidatorIndex| #[trigger] r@.state.faults.contains_key(idx) ==> r@.state.faults[idx] is Banned,
            r@.closed_under_dependencies(),
            r@.endorses_known_votes(),
    {
        let mut weights: Vec<u64> = Vec::new();
        let mut banned: Vec<ValidatorIndex> = Vec::new();
        let ghost all = validators@;
        let mut i: usize = 0;
        while i < validators.len()
            invariant
                i <= all.len(),
                all == validators@,
                all.len() <= u32::MAX,
                weights@ == weights_of(all.take(i as int)),
                forall|j: int| 0 <= j < banned@.len() ==> (#[trigger] banned@[j]).0 < i && all[banned@[j].0 as int].banned,
                forall|idx: ValidatorIndex| idx.0 < i && all[idx.0 as int].banned ==> #[trigger] banned@.contains(idx),
            decreases all.len() - i,
        {
            let validator = validators.at(i);
            weights.push(validator.weight);
            let ghost before = banned@;
            if validator.banned {
                banned.push(ValidatorIndex(i as u32));
            }
            proof {
                assert(weights@ =~= weights_of(all.take(i + 1)));
                assert forall|idx: ValidatorIndex| idx.0 < i + 1 && all[idx.0 as int].banned implies #[trigger] banned@.contains(idx) by {
                    if idx.0 < i {
                        assert(before.contains(idx));
                        let k = before.index_of(idx);
                        assert(banned@[k] == idx);
                    } else {
                        assert(banned@[before.len() as int] == idx);
                    }
                }
            }
            i += 1;
        }
        proof {
            assert(all.take(all.len() as int) =~= all);
            lemma_weights(all);
        }
        let state = State::new(weights, params, &banned);
        let r = Highway { instance_id, validators, state, active_validator: None };
        proof {
            assert forall|idx: ValidatorIndex| #[trigger] r@.state.faults.contains_key(idx) == (idx.0 < all.len() && all[idx.0 as int].banned) by {
                if banned@.contains(idx) {
                    let k = banned@.index_of(idx);
                    assert(banned@[k] == idx);
                }
            }
        }
        r
    }

    /// Turns this instance from a passive observer into an active validator that proposes new
    /// blocks and creates and signs new vertices. Returns the validator's index and the time at
    /// which it starts.
    pub fn activate_validator(&mut self, id: C::ValidatorId, current_time: Timestamp, round_exp: u8) -> (r: (ValidatorIndex, Timestamp))
        requires
            old(self).wf(),
            old(self)@.active is None,
            validators::index_of_id(old(self)@.validators, id) is Some,
        ensures
            final(self).wf(),
            Some(r.0) == validators::index_of_id(old(self)@.validators, id),
            r.1 == if current_time.0 >= old(self)@.state.params.spec_start_timestamp().0 {
                current_time
            } else {
                old(self)@.state.params.spec_start_timestamp()
            },
            final(self)@ == (HighwayModel {
                active: Some(ActiveValidator { vidx: r.0, next_round_exp: round_exp }),
                ..old(self)@
            }),
    {
        let vidx = match self.validators.get_index(&id) {
            Some(idx) => idx,
            None => ValidatorIndex(0),
        };
        let start = self.state.params().start_timestamp();
        let start_time = if current_time.0 >= start.0 {
            current_time
        } else {
            start
        };
        self.active_validator = Some(ActiveValidator { vidx, next_round_exp: round_exp });
        (vidx, start_time)
    }

    /// Turns this instance into a passive observer, that does not create any new vertices.
    pub fn deactivate_validator(&mut self)
        requires
            old(self).wf(),
        ensures
            final(self).wf(),
            final(self)@ == (HighwayModel { active: None, ..old(self)@ }),
    {
        self.active_validator = None;
    }

    /// Switches the active validator to a new round exponent.
    pub fn set_round_exp(&mut self, new_round_exp: u8)
        requires
            old(self).wf(),
        ensures
            final(self).wf(),
            final(self)@ == (HighwayModel {
                active: match old(self)@.active {
                    Some(av) => Some(ActiveValidator { next_round_exp: new_round_exp, ..av }),
                    None => None,
                },
                ..old(self)@
            }),
    {
        if let Some(av) = self.active_validator {
            self.active_validator = Some(ActiveValidator { vidx: av.vidx, next_round_exp: new_round_exp });
        }
    }

    /// Does initial validation. Returns an error if the vertex is invalid.
    pub fn pre_validate_vertex(&self, vertex: Vertex<C>) -> (r: Result<PreValidatedVertex<C>, (Vertex<C>, VertexError)>)
        requires
            self.wf(),
        ensures
            match r {
                Ok(pvv) => pvv.0 == vertex && self@.vertex_flaw(vertex) is None,
                Err((v, e)) => v == vertex && self@.vertex_flaw(vertex) == Some(e),
            },
            r is Ok ==> (vertex matches Vertex::Endorsements(e) ==> forall|i: int|
                #![trigger e.endorsers@[i]]
                0 <= i < e.endorsers@.len() ==> e.endorsers@[i].0.0 < self@.validators.len() && C::signed_by(
                    C::endorsement_hash(e.vote, e.endorsers@[i].0),
                    self@.validators[e.endorsers@[i].0.0 as int].id,
                    e.endorsers@[i].1,
                )),
    {
        proof {
            if vertex is Endorsements {
                laws::law_every_endorsement_is_signed(self@, vertex->Endorsements_0);
            }
        }
        match self.do_pre_validate_vertex(&vertex) {
            Err(err) => Err((vertex, err)),
            Ok(()) => Ok(PreValidatedVertex(vertex)),
        }
    }

    /// Returns the next missing dependency, or `None` if all dependencies of `pvv` are satisfied.
    ///
    /// If this returns `None`, `validate_vertex` can be called.
    pub fn missing_dependency(&self, pvv: &PreValidatedVertex<C>) -> (r: Option<Dependency<C>>)
        requires
            self.wf(),
            self@.vertex_flaw(pvv.0) is None,
        ensures
            r == self@.missing(pvv.0),
    {
        match pvv.inner() {
            Vertex::Evidence(_) => None,
            Vertex::Endorsements(endorsements) => {
                let vote = *endorsements.vote();
                if !self.state.has_vote(&vote) {
                    Some(Dependency::Vote(vote))
                } else {
                    None
                }
            },
            Vertex::Vote(vote) => {
                match self.state.missing_dependency(&vote.wire_vote.panorama) {
                    Some(dependency) => Some(dependency),
                    None => match self.state.needs_endorsements(vote) {
                        Some(hash) => Some(Dependency::Endorsement(hash)),
                        None => None,
                    },
                }
            },
        }
    }

    /// Does full validation. Returns an error if the vertex is invalid.
    ///
    /// All dependencies must be added to the state before this validation step.
    pub fn validate_vertex(&self, pvv: PreValidatedVertex<C>, info: &RoundInfo) -> (r: Result<
        ValidVertex<C>,
        (PreValidatedVertex<C>, VertexError),
    >)
        requires
            self.wf(),
            self@.vertex_flaw(pvv.0) is None,
            self@.missing(pvv.0) is None,
        ensures
            match r {
                Ok(vv) => vv.0 == pvv.0 && self@.placed_vertex_flaw(pvv.0, *info) is None && self@.vertex_fits(vv.0),
                Err((p, e)) => p == pvv && self@.placed_vertex_flaw(pvv.0, *info) == Some(e),
            },
    {
        match self.do_validate_vertex(pvv.inner(), info) {
            Err(err) => Err((pvv, err)),
            Ok(()) => Ok(ValidVertex(pvv.0)),
        }
    }

    /// Add a validated vertex to the protocol state.
    ///
    /// The validation must have been performed by _this_ `Highway` instance.
    /// More precisely: The instance on which `add_valid_vertex` is called must contain everything
    /// (and possibly more) that the instance on which `validate_vertex` was called contained.
    /// For a vote without a value, `fork_choice` is the fork choice of its panorama.
    pub fn add_valid_vertex(&mut self, vv: ValidVertex<C>, now: Timestamp, fork_choice: Option<C::Hash>) -> (r: Vec<Action<C>>)
        requires
            old(self).wf(),
            old(self)@.vertex_fits(vv.0),
            vv.0 matches Vertex::Vote(vote) && vote.wire_vote.value is None ==> fork_choice is Some,
        ensures
            final(self).wf(),
            old(self)@.vertex_added(vv.0, now, fork_choice, final(self)@, r@),
    {
        let vertex = vv.0;
        if !self.has_vertex(&vertex) {
            match vertex {
                Vertex::Vote(vote) => self.add_valid_vote(vote, now, fork_choice),
                Vertex::Evidence(evidence) => self.add_evidence(evidence),
                Vertex::Endorsements(endorsements) => {
                    self.state.add_endorsements(&endorsements);
                    Vec::new()
                },
            }
        } else {
            Vec::new()
        }
    }

    /// Returns whether the vertex is already part of this protocol state.
    pub fn has_vertex(&self, vertex: &Vertex<C>) -> (r: bool)
        requires
            self.wf(),
        ensures
            r == self@.has_vertex(*vertex),
    {
        match vertex {
            Vertex::Vote(vote) => self.state.has_vote(&vote.hash()),
            Vertex::Evidence(evidence) => self.state.has_evidence(evidence.perpetrator()),
            Vertex::Endorsements(endorsements) => {
                self.state.is_endorsed(endorsements.vote()) || self.state.has_all_endorsements(endorsements)
            },
        }
    }

    /// Returns whether the validator is known to be faulty and we have evidence.
    pub fn has_evidence(&self, vid: &C::ValidatorId) -> (r: bool)
        requires
            self.wf(),
        ensures
            r == match validators::index_of_id(self@.validators, *vid) {
                Some(idx) => self@.state.has_evidence(idx),
                None => false,
            },
    {
        match self.validators.get_index(vid) {
            Some(vidx) => self.state.has_evidence(vidx),
            None => false,
        }
    }

    /// Marks the given validator as faulty, if it exists.
    pub fn mark_faulty(&mut self, vid: &C::ValidatorId)
        requires
            old(self).wf(),
        ensures
            final(self).wf(),
            final(self)@ == (HighwayModel {
                state: match validators::index_of_id(old(self)@.validators, *vid) {
                    Some(idx) => old(self)@.state.with_faulty(idx),
                    None => old(self)@.state,
                },
                ..old(self)@
            }),
            old(self)@.closed_under_dependencies() ==> final(self)@.closed_under_dependencies(),
            old(self)@.endorses_known_votes() ==> final(self)@.endorses_known_votes(),
    {
        if let Some(vidx) = self.validators.get_index(vid) {
            self.state.mark_faulty(vidx);
        }
        proof {
            if old(self)@.closed_under_dependencies() {
                lemma_still_closed(old(self)@, self@);
            }
        }
    }

    /// Returns whether we have a vertex that satisfies the dependency.
    pub fn has_dependency(&self, dependency: &Dependency<C>) -> (r: bool)
        requires
            self.wf(),
        ensures
            r == self@.has_dependency(*dependency),
    {
        match dependency {
            Dependency::Vote(hash) => self.state.has_vote(hash),
            Dependency::Evidence(idx) => self.state.is_faulty(*idx),
            Dependency::Endorsement(hash) => self.state.is_endorsed(hash),
        }
    }

    /// Returns a vertex that satisfies the dependency, if available.
    ///
    /// If we send a vertex to a peer who is missing a dependency, they will ask us for it. In that
    /// case, `get_dependency` will never return `Missing`, unless the peer is faulty.
    pub fn get_dependency(&self, dependency: &Dependency<C>) -> (r: GetDepOutcome<C>)
        requires
            self.wf(),
        ensures
            (r is Missing) == !self@.can_provide(*dependency),
            r matches GetDepOutcome::Vertex(vv) ==> vv.0.satisfies(*dependency) && self@.has_vertex(vv.0) && self@.holds(
                vv.0,
            ),
            match *dependency {
                Dependency::Vote(hash) => if self@.state.has_vote(hash) {
                    r == GetDepOutcome::<C>::Vertex(ValidVertex(Vertex::Vote(self@.state.votes[hash])))
                } else {
                    r is Missing
                },
                Dependency::Evidence(idx) => if !self@.state.faults.contains_key(idx) {
                    r is Missing
                } else {
                    match self@.state.faults[idx] {
                        Fault::Banned => r is Missing,
                        Fault::Direct(ev) => r == GetDepOutcome::<C>::Vertex(ValidVertex(Vertex::Evidence(ev))),
                        Fault::Indirect => r == GetDepOutcome::<C>::Evidence(self@.validators[idx.0 as int].id),
                    }
                },
                Dependency::Endorsement(hash) => if self@.state.is_endorsed(hash) {
                    r matches GetDepOutcome::Vertex(ValidVertex(Vertex::Endorsements(e))) && e.vote == hash && e.endorsers@
                        == state::endorser_list(self@.state.weights.len() as int, self@.state.endorsers(hash))
                } else {
                    r is Missing
                },
            },
    {
        proof {
            self.state.lemma_consistent();
            if let Dependency::Vote(hash) = dependency {
                assert(self@.state.votes.contains_key(*hash) == self@.state.has_vote(*hash));
            }
            if let Dependency::Endorsement(hash) = dependency {
                if self@.state.is_endorsed(*hash) {
                    state::lemma_endorsed_has_endorsers(self@.state, *hash);
                }
            }
        }
        match dependency {
            Dependency::Vote(hash) => match self.state.wire_vote(hash) {
                None => GetDepOutcome::Missing,
                Some(vote) => GetDepOutcome::Vertex(ValidVertex(Vertex::Vote(vote))),
            },
            Dependency::Evidence(idx) => match self.state.opt_fault(*idx) {
                None | Some(Fault::Banned) => GetDepOutcome::Missing,
                Some(Fault::Direct(ev)) => GetDepOutcome::Vertex(ValidVertex(Vertex::Evidence(ev.clone()))),
                Some(Fault::Indirect) => match self.validators.id(*idx) {
                    Some(vid) => GetDepOutcome::Evidence(*vid),
                    None => GetDepOutcome::Missing,
                },
            },
            Dependency::Endorsement(hash) => match self.state.opt_endorsements(hash) {
                None => GetDepOutcome::Missing,
                Some(e) => GetDepOutcome::Vertex(ValidVertex(Vertex::Endorsements(Rc::new(e)))),
            },
        }
    }

    /// Returns what is to be done when a timer fires: nothing unless this is an active validator.
    ///
    /// We just use the timer's timestamp, and assume it's the current time. This is because
    /// proposal votes, i.e. new blocks, are supposed to have the exact timestamp that matches the
    /// beginning of the round (which we use as the "round ID").
    pub fn handle_timer(&self, timestamp: Timestamp) -> (r: Option<Action<C>>)
        ensures
            r == if self@.active is Some {
                Some(Action::<C>::HandleTimer(timestamp))
            } else {
                None
            },
    {
        match self.active_validator {
            Some(_) => Some(Action::HandleTimer(timestamp)),
            None => None,
        }
    }

    /// Returns what is to be done to propose a value: nothing if the validator has been
    /// deactivated.
    pub fn propose(&self, value: C::ConsensusValue, block_context: BlockContext) -> (r: Option<Action<C>>)
        ensures
            r == if self@.active is Some {
                Some(Action::<C>::Propose { value, block_context })
            } else {
                None
            },
    {
        match self.active_validator {
            Some(_) => Some(Action::Propose { value, block_context }),
            None => None,
        }
    }

    /// Returns the validators.
    pub fn validators(&self) -> (r: &Validators<C::ValidatorId>)
        ensures
            r@ == self@.validators,
    {
        &self.validators
    }

    /// Returns the IDs of all validators against which we have direct evidence.
    pub fn validators_with_evidence(&self) -> (r: Vec<C::ValidatorId>)
        requires
            self.wf(),
        ensures
            r@ == ids_with_evidence(self@, self@.validators.len() as int),
    {
        let mut r: Vec<C::ValidatorId> = Vec::new();
        let mut i: usize = 0;
        while i < self.validators.len()
            invariant
                i <= self@.validators.len(),
                self.wf(),
                r@ == ids_with_evidence(self@, i as int),
            decreases self@.validators.len() - i,
        {
            if self.state.has_evidence(ValidatorIndex(i as u32)) {
                r.push(self.validators.at(i).id);
            }
            i += 1;
        }
        r
    }

    /// Returns the protocol state.
    pub fn state(&self) -> (r: &State<C>)
        requires
            self.wf(),
        ensures
            r@ == self@.state,
            r.wf(),
    {
        &self.state
    }

    /// Returns what follows a new vote.
    fn on_new_vote(&self, vhash: C::Hash, timestamp: Timestamp) -> (r: Vec<Action<C>>)
        ensures
            r@ == self@.vote_actions(vhash, timestamp),
    {
        let mut actions: Vec<Action<C>> = Vec::new();
        if self.active_validator.is_some() {
            actions.push(Action::OnNewVote { vhash, timestamp });
        }
        assert(actions@ =~= self@.vote_actions(vhash, timestamp));
        actions
    }

    /// Returns what follows new evidence.
    fn on_new_evidence(&self, evidence: Rc<Evidence<C>>) -> (r: Vec<Action<C>>)
        ensures
            r@ == self@.evidence_actions(evidence),
    {
        let mut actions: Vec<Action<C>> = Vec::new();
        if self.active_validator.is_some() {
            actions.push(Action::OnNewEvidence(evidence.clone()));
        }
        // Gossip `Evidence` only if we just learned about faults by the validator.
        actions.push(Action::Emit(Effect::NewVertex(ValidVertex(Vertex::Evidence(evidence)))));
        assert(actions@ =~= self@.evidence_actions(evidence));
        actions
    }

    /// Takes in what the active validator made of new evidence: newly created endorsements are
    /// added to the local state, and the effects are carried out.
    pub fn apply_evidence_effects(&mut self, effects: Vec<Effect<C>>) -> (r: Vec<Action<C>>)
        requires
            old(self).wf(),
        ensures
            final(self).wf(),
            final(self)@ == (HighwayModel {
                state: with_effect_endorsements(old(self)@.state, effects@),
                ..old(self)@
            }),
            r@ == emitted(effects@),
            old(self)@.closed_under_dependencies() ==> final(self)@.closed_under_dependencies(),
            old(self)@.endorses_known_votes() && endorsing_known(old(self)@.state, effects@)
                ==> final(self)@.endorses_known_votes(),
    {
        let ghost pre = self@;
        let mut i: usize = 0;
        assert(effects@.take(0) =~= Seq::empty());
        while i < effects.len()
            invariant
                i <= effects@.len(),
                self.wf(),
                self@ == (HighwayModel { state: with_effect_endorsements(pre.state, effects@.take(i as int)), ..pre }),
            decreases effects@.len() - i,
        {
            proof {
                assert(effects@.take(i + 1).drop_last() =~= effects@.take(i as int));
                assert(effects@.take(i + 1).last() == effects@[i as int]);
            }
            if let Effect::NewVertex(vv) = &effects[i] {
                if let Some(e) = vv.endorsements() {
                    self.state.add_endorsements(e);
                }
            }
            i += 1;
        }
        proof {
            assert(effects@.take(effects@.len() as int) =~= effects@);
            lemma_effect_endorsements(pre.state, effects@);
            if pre.closed_under_dependencies() {
                lemma_still_closed(pre, self@);
            }
            if pre.endorses_known_votes() && endorsing_known(pre.state, effects@) {
                lemma_effects_endorse_known(pre.state, effects@);
            }
        }
        emit_all(effects)
    }

    /// Takes in what the active validator made of a vote, a timer or a value: newly created
    /// vertices are to be added to the state, a validator who equivocated is to be deactivated, and
    /// the effects are to be carried out.
    pub fn apply_active_effects(effects: Vec<Effect<C>>, timestamp: Timestamp) -> (r: Vec<Action<C>>)
        ensures
            r@ == effect_steps(effects@, timestamp) + emitted(effects@),
    {
        let mut actions: Vec<Action<C>> = Vec::new();
        let mut i: usize = 0;
        assert(effects@.take(0) =~= Seq::empty());
        while i < effects.len()
            invariant
                i <= effects@.len(),
                actions@ == effect_steps(effects@.take(i as int), timestamp),
            decreases effects@.len() - i,
        {
            proof {
                assert(effects@.take(i + 1).drop_last() =~= effects@.take(i as int));
                assert(effects@.take(i + 1).last() == effects@[i as int]);
            }
            match &effects[i] {
                Effect::NewVertex(vv) => actions.push(Action::AddVertex(vv.share(), timestamp)),
                Effect::WeEquivocated(_) => actions.push(Action::Deactivate),
                Effect::ScheduleTimer(_) | Effect::RequestNewBlock(_) => {},
            }
            i += 1;
        }
        assert(effects@.take(effects@.len() as int) =~= effects@);
        let mut emits = emit_all(effects);
        actions.append(&mut emits);
        actions
    }

    /// Performs initial validation and returns an error if `vertex` is invalid. (See
    /// `PreValidatedVertex` and `validate_vertex`.)
    fn do_pre_validate_vertex(&self, vertex: &Vertex<C>) -> (r: Result<(), VertexError>)
        requires
            self.wf(),
        ensures
            match r {
                Ok(()) => self@.vertex_flaw(*vertex) is None,
                Err(e) => self@.vertex_flaw(*vertex) == Some(e),
            },
    {
        match vertex {
            Vertex::Vote(vote) => {
                let creator = vote.wire_vote.creator;
                let v_id = match self.validators.id(creator) {
                    Some(v_id) => v_id,
                    None => {
                        return Err(VertexError::Vote(VoteError::Creator));
                    },
                };
                if !vote.wire_vote.instance_id.same(&self.instance_id) {
                    return Err(VertexError::Vote(VoteError::InstanceId));
                }
                if !C::verify_signature(&vote.hash(), v_id, &vote.signature) {
                    return Err(VertexError::Vote(VoteError::Signature));
                }
                match self.state.pre_validate_vote(vote) {
                    Ok(()) => Ok(()),
                    Err(e) => Err(VertexError::Vote(e)),
                }
            },
            Vertex::Evidence(evidence) => {
                let v_id = match self.validators.id(evidence.perpetrator()) {
                    Some(v_id) => v_id,
                    None => {
                        return Err(VertexError::Evidence(EvidenceError::UnknownPerpetrator));
                    },
                };
                match evidence.validate(v_id, &self.instance_id) {
                    Ok(()) => Ok(()),
                    Err(e) => Err(VertexError::Evidence(e)),
                }
            },
            Vertex::Endorsements(endorsements) => {
                let vote = *endorsements.vote();
                let mut i: usize = 0;
                while i < endorsements.endorsers.len()
                    invariant
                        i <= endorsements.endorsers@.len(),
                        vote == endorsements.vote,
                        *vertex == Vertex::Endorsements(*endorsements),
                        self.wf(),
                        self@.endorsement_flaw(**endorsements, 0) == self@.endorsement_flaw(**endorsements, i as int),
                    decreases endorsements.endorsers@.len() - i,
                {
                    let (idx, signature) = endorsements.endorsers[i];
                    let validator = match self.validators.id(idx) {
                        Some(validator) => validator,
                        None => {
                            return Err(VertexError::Endorsement(EndorsementError::Creator));
                        },
                    };
                    if !C::verify_signature(&C::hash_endorsement(&vote, idx), validator, &signature) {
                        return Err(VertexError::Endorsement(EndorsementError::Signature));
                    }
                    i += 1;
                }
                Ok(())
            },
        }
    }

    /// Validates `vertex` and returns an error if it is invalid.
    /// This requires all dependencies to be present.
    fn do_validate_vertex(&self, vertex: &Vertex<C>, info: &RoundInfo) -> (r: Result<(), VertexError>)
        requires
            self.wf(),
            self@.vertex_flaw(*vertex) is None,
            self@.missing(*vertex) is None,
        ensures
            match r {
                Ok(()) => self@.placed_vertex_flaw(*vertex, *info) is None && self@.vertex_fits(*vertex),
                Err(e) => self@.placed_vertex_flaw(*vertex, *info) == Some(e),
            },
    {
        match vertex {
            Vertex::Vote(vote) => match self.state.validate_vote(vote, info) {
                Ok(()) => {
                    proof {
                        state::lemma_valid_vote_fits(self@.state, vote, *info);
                    }
                    Ok(())
                },
                Err(e) => Err(VertexError::Vote(e)),
            },
            Vertex::Evidence(_evidence) => Ok(()),
            Vertex::Endorsements(_endorsements) => Ok(()),
        }
    }

    /// Adds evidence to the protocol state.
    /// Gossip the evidence if it's the first equivocation from the creator.
    fn add_evidence(&mut self, evidence: Rc<Evidence<C>>) -> (r: Vec<Action<C>>)
        requires
            old(self).wf(),
            evidence.accused().0 < old(self)@.validators.len(),
        ensures
            final(self).wf(),
            final(self)@ == (HighwayModel { state: old(self)@.state.with_evidence(evidence), ..old(self)@ }),
            r@ == if old(self)@.state.faults.contains_key(evidence.accused()) && !(old(self)@.state.faults[evidence.accused()] is Indirect) {
                Seq::<Action<C>>::empty()
            } else {
                old(self)@.evidence_actions(evidence)
            },
    {
        if self.state.add_evidence(evidence.clone()) {
            self.on_new_evidence(evidence)
        } else {
            Vec::new()
        }
    }

    /// Adds a valid vote to the protocol state.
    ///
    /// Validity must be checked before calling this!
    fn add_valid_vote(&mut self, swvote: Rc<SignedWireVote<C>>, now: Timestamp, fork_choice: Option<C::Hash>) -> (r: Vec<Action<C>>)
        requires
            old(self).wf(),
            old(self)@.state.vote_fits(*swvote),
            !old(self)@.state.has_vote(C::vote_hash(swvote.wire_vote@)),
            swvote.wire_vote.value is None ==> fork_choice is Some,
        ensures
            final(self).wf(),
            old(self)@.vertex_added(Vertex::Vote(swvote), now, fork_choice, final(self)@, r@),
    {
        let vote_hash = swvote.hash();
        let creator = swvote.wire_vote.creator;
        let was_honest = !self.state.is_faulty(creator);
        let _unit = self.state.add_valid_vote(swvote, fork_choice);
        let mut actions: Vec<Action<C>> = match self.state.opt_evidence(creator) {
            Some(ev) => {
                if was_honest {
                    self.on_new_evidence(ev)
                } else {
                    Vec::new()
                }
            },
            None => Vec::new(),
        };
        let mut vote_actions = self.on_new_vote(vote_hash, now);
        actions.append(&mut vote_actions);
        actions
    }
}

/// Returns the effects as things to be carried out.
fn emit_all<C: ContextTypes>(effects: Vec<Effect<C>>) -> (r: Vec<Action<C>>)
    ensures
        r@ == emitted(effects@),
{
    let mut source = effects;
    let ghost all = source@;
    let mut actions: Vec<Action<C>> = Vec::new();
    while source.len() > 0
        invariant
            source@.len() <= all.len(),
            source@ == all.skip(all.len() - source@.len()),
            actions@ == emitted(all.take(all.len() - source@.len())),
        decreases source@.len(),
    {
        let ghost k = all.len() - source@.len();
        let effect = source.remove(0);
        actions.push(Action::Emit(effect));
        proof {
            assert(effect == all[k]);
            assert(source@ =~= all.skip(k + 1));
            assert(actions@ =~= emitted(all.take(k + 1)));
        }
    }
    assert(all.take(all.len() as int) =~= all);
    actions
}

/// All validators whose endorsements are put in have endorsed.
proof fn lemma_with_endorsers<S>(endorsers: Map<ValidatorIndex, S>, more: Seq<(ValidatorIndex, S)>, i: int)
    requires
        0 <= i < more.len(),
    ensures
        state::with_endorsers(endorsers, more).contains_key(more[i].0),
    decreases more.len(),
{
    if i < more.len() - 1 {
        lemma_with_endorsers(endorsers, more.drop_last(), i);
        assert(more.drop_last()[i] == more[i]);
    }
}

/// A vertex that was added is part of the protocol state, unless it is evidence against a validator
/// who is banned anyway; adding it again changes nothing.
pub proof fn law_added_vertex_is_there<C: Context>(
    pre: HighwayModel<C>,
    vertex: Vertex<C>,
    now: Timestamp,
    fork_choice: Option<C::Hash>,
    post: HighwayModel<C>,
    actions: Seq<Action<C>>,
)
    requires
        pre.state.consistent(),
        pre.vertex_added(vertex, now, fork_choice, post, actions),
        !(vertex matches Vertex::Evidence(evidence) && pre.state.faults.contains_key(evidence.accused())
            && pre.state.faults[evidence.accused()] is Banned),
    ensures
        post.has_vertex(vertex),
        forall|later: Timestamp, choice: Option<C::Hash>, next: HighwayModel<C>, more: Seq<Action<C>>|
            #[trigger] post.vertex_added(vertex, later, choice, next, more) ==> next.state == post.state && more.len() == 0,
{
    if !pre.has_vertex(vertex) {
        match vertex {
            Vertex::Vote(vote) => {
                let hash = C::vote_hash(vote.wire_vote@);
                let unit = choose|unit: Rc<unit::Unit<C>>|
                    {
                        &&& unit.is_of(graph::units_of(pre.state.units), *vote, fork_choice)
                        &&& #[trigger] post.state.is_with_vote(pre.state, hash, vote, unit)
                    };
                assert(post.state.is_with_vote(pre.state, hash, vote, unit));
                crate::collections::lemma_entry_map_push(pre.state.units, hash, unit);
            },
            Vertex::Evidence(evidence) => {},
            Vertex::Endorsements(e) => {
                assert forall|i: int| 0 <= i < e.endorsers@.len() implies post.state.endorsers(e.vote).contains_key((#[trigger] e.endorsers@[i]).0) by {
                    lemma_with_endorsers(pre.state.endorsers(e.vote), e.endorsers@, i);
                }
            },
        }
    }
}

/// No vote ever leaves the protocol state, and no fault is ever forgotten.
pub proof fn law_state_grows<C: Context>(
    pre: HighwayModel<C>,
    vertex: Vertex<C>,
    now: Timestamp,
    fork_choice: Option<C::Hash>,
    post: HighwayModel<C>,
    actions: Seq<Action<C>>,
    hash: C::Hash,
    idx: ValidatorIndex,
)
    requires
        pre.state.consistent(),
        pre.vertex_added(vertex, now, fork_choice, post, actions),
    ensures
        pre.state.has_vote(hash) ==> post.state.has_vote(hash) && post.state.votes[hash] == pre.state.votes[hash],
        pre.state.faults.contains_key(idx) ==> post.state.faults.contains_key(idx),
        pre.state.has_evidence(idx) ==> post.state.faults[idx] == pre.state.faults[idx],
{
    if !pre.has_vertex(vertex) {
        if let Vertex::Vote(vote) = vertex {
            let new = C::vote_hash(vote.wire_vote@);
            let unit = choose|unit: Rc<unit::Unit<C>>|
                {
                    &&& unit.is_of(graph::units_of(pre.state.units), *vote, fork_choice)
                    &&& #[trigger] post.state.is_with_vote(pre.state, new, vote, unit)
                };
            assert(post.state.is_with_vote(pre.state, new, vote, unit));
            crate::collections::lemma_entry_map_push(pre.state.units, new, unit);
            let c = vote.wire_vote.creator;
            if post.state.faults != pre.state.faults && pre.state.faults.contains_key(c) {
                assert(c.0 < pre.state.weights.len());
                assert(pre.state.panorama[c.0 as int] is Faulty);
            }
        }
    }
}

impl<C: Context> HighwayModel<C> {
    /// The dependency is satisfied.
    pub open spec fn has_dependency(self, dependency: Dependency<C>) -> bool {
        match dependency {
            Dependency::Vote(hash) => self.state.has_vote(hash),
            Dependency::Evidence(idx) => self.state.faults.contains_key(idx),
            Dependency::Endorsement(hash) => self.state.is_endorsed(hash),
        }
    }

    /// A vertex can be given to whoever asks for the dependency.
    pub open spec fn can_provide(self, dependency: Dependency<C>) -> bool {
        self.has_dependency(dependency) && !(dependency matches Dependency::Evidence(idx) && self.state.faults[idx] is Banned)
    }

    /// The dependencies of all votes are satisfied.
    pub open spec fn closed_under_dependencies(self) -> bool {
        forall|hash: C::Hash| #[trigger] self.state.has_vote(hash) ==> self.missing(Vertex::Vote(self.state.votes[hash])) is None
    }

    /// The dependencies of all endorsements are satisfied: every vote with endorsements is there.
    pub open spec fn endorses_known_votes(self) -> bool {
        forall|hash: C::Hash| #[trigger] self.state.endorsements.contains_key(hash) ==> self.state.has_vote(hash)
    }

    /// The vertex comes from the protocol state: a vote as it is there, the evidence for a fault, or
    /// endorsements of a vote of which there are some.
    pub open spec fn holds(self, vertex: Vertex<C>) -> bool {
        match vertex {
            Vertex::Vote(vote) => {
                let hash = C::vote_hash(vote.wire_vote@);
                self.state.has_vote(hash) && self.state.votes[hash] == vote
            },
            Vertex::Evidence(evidence) => self.state.faults.contains_key(evidence.accused())
                && self.state.faults[evidence.accused()] == Fault::Direct(evidence),
            Vertex::Endorsements(e) => self.state.endorsements.contains_key(e.vote),
        }
    }

    /// The instance is one of the same validators, and contains all votes that the other one contains,
    /// and possibly more.
    pub open spec fn contains_all(self, other: HighwayModel<C>) -> bool {
        let g = graph::units_of(self.state.units);
        let h = graph::units_of(other.state.units);
        &&& self.validators.len() == other.validators.len()
        &&& self.state.weights == other.state.weights
        &&& forall|hash: C::Hash| #[trigger] h.contains_key(hash) ==> g.contains_key(hash) && g[hash] == h[hash]
    }
}

/// A vertex that fits in one instance fits in every instance that contains everything that the first one
/// contains, and possibly more.
pub proof fn law_fits_in_more<C: Context>(m: HighwayModel<C>, more: HighwayModel<C>, vertex: Vertex<C>)
    requires
        m.vertex_fits(vertex),
        more.contains_all(m),
    ensures
        more.vertex_fits(vertex),
{
    if let Vertex::Vote(vote) = vertex {
        let obs = vote.wire_vote.panorama.observations@;
        let g = graph::units_of(m.state.units);
        let c = vote.wire_vote.creator;
        assert forall|i: int| 0 <= i < obs.len() implies (#[trigger] obs[i] matches panorama::Observation::Correct(h)
            ==> graph::units_of(more.state.units).contains_key(h) && graph::units_of(more.state.units)[h].creator.0 == i) by {
            if let panorama::Observation::Correct(h) = obs[i] {
                assert(g.contains_key(h));
            }
        }
        if let panorama::Observation::Correct(p) = panorama::observed(obs, c) {
            assert(obs[c.0 as int] == panorama::Observation::Correct(p));
            assert(g.contains_key(p));
        }
    }
}

/// A vertex that was found to fit still does after others have been added.
pub proof fn law_still_fits<C: Context>(
    pre: HighwayModel<C>,
    vertex: Vertex<C>,
    now: Timestamp,
    fork_choice: Option<C::Hash>,
    post: HighwayModel<C>,
    actions: Seq<Action<C>>,
    fitting: Vertex<C>,
)
    requires
        pre.state.consistent(),
        pre.vertex_added(vertex, now, fork_choice, post, actions),
        pre.vertex_fits(fitting),
    ensures
        post.contains_all(pre),
        post.vertex_fits(fitting),
{
    if !pre.has_vertex(vertex) {
        if let Vertex::Vote(vote) = vertex {
            let hash = C::vote_hash(vote.wire_vote@);
            let unit = choose|unit: Rc<unit::Unit<C>>|
                {
                    &&& unit.is_of(graph::units_of(pre.state.units), *vote, fork_choice)
                    &&& #[trigger] post.state.is_with_vote(pre.state, hash, vote, unit)
                };
            assert(post.state.is_with_vote(pre.state, hash, vote, unit));
            crate::collections::lemma_entry_map_push(pre.state.units, hash, unit);
        }
    }
    law_fits_in_more(pre, post, fitting);
}

/// Endorsements of known votes among effects leave no vote with endorsements missing.
proof fn lemma_effects_endorse_known<C: ContextTypes>(m: state::StateModel<C>, effects: Seq<Effect<C>>)
    requires
        forall|hash: C::Hash| #[trigger] m.endorsements.contains_key(hash) ==> m.has_vote(hash),
        endorsing_known(m, effects),
    ensures
        forall|hash: C::Hash| #[trigger] with_effect_endorsements(m, effects).endorsements.contains_key(hash) ==> m.has_vote(hash),
    decreases effects.len(),
{
    if effects.len() > 0 {
        let rest = effects.drop_last();
        assert forall|i: int| 0 <= i < rest.len() implies (#[trigger] rest[i] matches Effect::NewVertex(
            ValidVertex(Vertex::Endorsements(e)),
        ) ==> m.has_vote(e.vote)) by {
            assert(rest[i] == effects[i]);
        }
        lemma_effects_endorse_known(m, rest);
        let before = with_effect_endorsements(m, rest);
        let last = effects[effects.len() - 1];
        assert forall|hash: C::Hash| #[trigger]
            with_effect_endorsements(m, effects).endorsements.contains_key(hash) implies m.has_vote(hash) by {
            if !before.endorsements.contains_key(hash) {
                assert(last matches Effect::NewVertex(ValidVertex(Vertex::Endorsements(e))) && e.vote == hash);
            }
        }
    }
}

/// More endorsements mean no less weight.
proof fn lemma_endorsing_weight_grows<S>(weights: Seq<u64>, endorsers: Map<ValidatorIndex, S>, more: Map<ValidatorIndex, S>)
    requires
        endorsers.dom().subset_of(more.dom()),
    ensures
        state::endorsing_weight(weights, endorsers) <= state::endorsing_weight(weights, more),
    decreases weights.len(),
{
    if weights.len() > 0 {
        let idx = ValidatorIndex((weights.len() - 1) as u32);
        assert(endorsers.dom().contains(idx) ==> more.dom().contains(idx));
        lemma_endorsing_weight_grows(weights.drop_last(), endorsers, more);
    }
}

/// Putting in endorsements takes none away.
proof fn lemma_with_endorsers_grows<S>(endorsers: Map<ValidatorIndex, S>, more: Seq<(ValidatorIndex, S)>)
    ensures
        endorsers.dom().subset_of(state::with_endorsers(endorsers, more).dom()),
    decreases more.len(),
{
    if more.len() > 0 {
        lemma_with_endorsers_grows(endorsers, more.drop_last());
    }
}

/// What a panorama depends on, if anything of it is missing, is one of its observations.
proof fn lemma_first_missing<C: ContextTypes>(m: state::StateModel<C>, obs: Seq<panorama::Observation<C::Hash>>, from: int) -> (i: int)
    requires
        0 <= from,
        m.first_missing(obs, from) is Some,
    ensures
        from <= i < obs.len(),
        m.first_missing(obs, from) == m.missing_for(i, obs[i]),
    decreases obs.len() - from,
{
    if m.missing_for(from, obs[from]) is Some {
        from
    } else {
        lemma_first_missing(m, obs, from + 1)
    }
}

/// The first vote without enough endorsements is one of those given.
proof fn lemma_first_unendorsed<C: ContextTypes>(m: state::StateModel<C>, hashes: Seq<C::Hash>, from: int) -> (i: int)
    requires
        0 <= from,
        m.first_unendorsed(hashes, from) is Some,
    ensures
        from <= i < hashes.len(),
        m.first_unendorsed(hashes, from) == Some(hashes[i]),
        !m.is_endorsed(hashes[i]),
    decreases hashes.len() - from,
{
    if !m.is_endorsed(hashes[from]) {
        from
    } else {
        lemma_first_unendorsed(m, hashes, from + 1)
    }
}

/// Where no vote without enough endorsements is found, all votes have enough.
proof fn lemma_all_endorsed<C: ContextTypes>(m: state::StateModel<C>, hashes: Seq<C::Hash>, from: int, i: int)
    requires
        0 <= from <= i < hashes.len(),
        m.first_unendorsed(hashes, from) is None,
    ensures
        m.is_endorsed(hashes[i]),
    decreases i - from,
{
    if from < i {
        lemma_all_endorsed(m, hashes, from + 1, i);
    }
}

/// A dependency of a vote that somebody else misses is there if no dependency of the vote is missing.
proof fn lemma_dependency_there<C: Context>(m: HighwayModel<C>, other: HighwayModel<C>, vote: Rc<SignedWireVote<C>>)
    requires
        m.missing(Vertex::Vote(vote)) is None,
        other.missing(Vertex::Vote(vote)) is Some,
    ensures
        m.has_dependency(other.missing(Vertex::Vote(vote))->0),
        !other.has_dependency(other.missing(Vertex::Vote(vote))->0),
{
    let obs = vote.wire_vote.panorama.observations@;
    let endorsed = vote.wire_vote.endorsed@;
    if other.state.first_missing(obs, 0) is Some {
        let i = lemma_first_missing(other.state, obs, 0);
        state::lemma_none_missing_at(m.state, obs, 0, i);
    } else {
        let i = lemma_first_unendorsed(other.state, endorsed, 0);
        lemma_all_endorsed(m.state, endorsed, 0, i);
    }
}

/// What was endorsed stays endorsed when endorsements are added.
proof fn lemma_endorsement_stays<C: ContextTypes>(m: state::StateModel<C>, e: Rc<Endorsements<C>>, hash: C::Hash)
    requires
        m.is_endorsed(hash),
    ensures
        m.with_endorsements(*e).is_endorsed(hash),
{
    let before = m.endorsers(e.vote);
    lemma_with_endorsers_grows(before, e.endorsers@);
    lemma_endorsing_weight_grows(m.weights, before, state::with_endorsers(before, e.endorsers@));
}

/// The endorsements among effects change nothing but endorsements, and take none away.
proof fn lemma_effect_endorsements<C: ContextTypes>(m: state::StateModel<C>, effects: Seq<Effect<C>>)
    ensures
        with_effect_endorsements(m, effects).units == m.units,
        with_effect_endorsements(m, effects).votes == m.votes,
        with_effect_endorsements(m, effects).faults == m.faults,
        forall|hash: C::Hash| #[trigger] m.is_endorsed(hash) ==> with_effect_endorsements(m, effects).is_endorsed(hash),
    decreases effects.len(),
{
    if effects.len() > 0 {
        lemma_effect_endorsements(m, effects.drop_last());
        if let Effect::NewVertex(ValidVertex(Vertex::Endorsements(e))) = effects.last() {
            let before = with_effect_endorsements(m, effects.drop_last());
            assert forall|hash: C::Hash| #[trigger] m.is_endorsed(hash) implies with_effect_endorsements(m, effects).is_endorsed(hash) by {
                lemma_endorsement_stays(before, e, hash);
            }
        }
    }
}

/// Learning of more faults and endorsements leaves no dependency missing.
proof fn lemma_still_closed<C: Context>(pre: HighwayModel<C>, post: HighwayModel<C>)
    requires
        pre.closed_under_dependencies(),
        post.state.units == pre.state.units,
        post.state.votes == pre.state.votes,
        forall|idx: ValidatorIndex| #[trigger] pre.state.faults.contains_key(idx) ==> post.state.faults.contains_key(idx),
        forall|hash: C::Hash| #[trigger] pre.state.is_endorsed(hash) ==> post.state.is_endorsed(hash),
    ensures
        post.closed_under_dependencies(),
{
    assert forall|hash: C::Hash| #[trigger] post.state.has_vote(hash) implies post.missing(Vertex::Vote(post.state.votes[hash])) is None by {
        assert(pre.state.has_vote(hash));
        if post.missing(Vertex::Vote(post.state.votes[hash])) is Some {
            lemma_dependency_there(pre, post, post.state.votes[hash]);
        }
    }
}

/// What was endorsed stays endorsed when a vertex is added.
proof fn lemma_endorsed_stays<C: Context>(
    pre: HighwayModel<C>,
    vertex: Vertex<C>,
    now: Timestamp,
    fork_choice: Option<C::Hash>,
    post: HighwayModel<C>,
    actions: Seq<Action<C>>,
    hash: C::Hash,
)
    requires
        pre.vertex_added(vertex, now, fork_choice, post, actions),
        pre.state.is_endorsed(hash),
    ensures
        post.state.is_endorsed(hash),
{
    if let Vertex::Endorsements(e) = vertex {
        lemma_endorsement_stays(pre.state, e, hash);
    }
}

/// Adding a vertex of which no dependency is missing leaves no dependency of any vote missing, nor any
/// vote with endorsements.
pub proof fn law_dependencies_stay<C: Context>(
    pre: HighwayModel<C>,
    vertex: Vertex<C>,
    now: Timestamp,
    fork_choice: Option<C::Hash>,
    post: HighwayModel<C>,
    actions: Seq<Action<C>>,
)
    requires
        pre.state.consistent(),
        post.state.consistent(),
        pre.closed_under_dependencies(),
        pre.missing(vertex) is None,
        pre.vertex_added(vertex, now, fork_choice, post, actions),
    ensures
        post.closed_under_dependencies(),
        pre.endorses_known_votes() ==> post.endorses_known_votes(),
{
    if pre.endorses_known_votes() {
        assert forall|hash: C::Hash| #[trigger] post.state.endorsements.contains_key(hash) implies post.state.has_vote(hash) by {
            assert(pre.state.has_vote(hash)) by {
                if !pre.state.endorsements.contains_key(hash) {
                    assert(vertex matches Vertex::Endorsements(e) && e.vote == hash);
                }
            }
            law_state_grows(pre, vertex, now, fork_choice, post, actions, hash, ValidatorIndex(0));
        }
    }
    assert forall|hash: C::Hash| #[trigger] post.state.has_vote(hash) implies post.missing(Vertex::Vote(post.state.votes[hash])) is None by {
        let vote = post.state.votes[hash];
        assert(pre.missing(Vertex::Vote(vote)) is None) by {
            if pre.state.has_vote(hash) {
                law_state_grows(pre, vertex, now, fork_choice, post, actions, hash, ValidatorIndex(0));
            } else if let Vertex::Vote(new) = vertex {
                if !pre.has_vertex(vertex) {
                    let new_hash = C::vote_hash(new.wire_vote@);
                    let unit = choose|unit: Rc<unit::Unit<C>>|
                        {
                            &&& unit.is_of(graph::units_of(pre.state.units), *new, fork_choice)
                            &&& #[trigger] post.state.is_with_vote(pre.state, new_hash, new, unit)
                        };
                    assert(post.state.is_with_vote(pre.state, new_hash, new, unit));
                    crate::collections::lemma_entry_map_push(pre.state.units, new_hash, unit);
                    assert(hash == new_hash);
                }
            }
        }
        if post.missing(Vertex::Vote(vote)) is Some {
            lemma_dependency_there(pre, post, vote);
            match post.missing(Vertex::Vote(vote))->0 {
                Dependency::Vote(h) => {
                    law_state_grows(pre, vertex, now, fork_choice, post, actions, h, ValidatorIndex(0));
                },
                Dependency::Evidence(idx) => {
                    law_state_grows(pre, vertex, now, fork_choice, post, actions, hash, idx);
                },
                Dependency::Endorsement(h) => {
                    lemma_endorsed_stays(pre, vertex, now, fork_choice, post, actions, h);
                },
            }
        }
    }
}

/// If we send a vertex of ours to a peer who is missing a dependency, and who knows all validators to be
/// faulty who were banned from the beginning, we can provide what the peer will ask for.
pub proof fn law_dependencies_can_be_provided<C: Context>(m: HighwayModel<C>, peer: HighwayModel<C>, vertex: Vertex<C>)
    requires
        m.closed_under_dependencies(),
        m.endorses_known_votes(),
        m.holds(vertex),
        peer.missing(vertex) is Some,
        forall|idx: ValidatorIndex| #[trigger] m.state.faults.contains_key(idx) && m.state.faults[idx] is Banned ==> peer.state.faults.contains_key(idx),
    ensures
        m.can_provide(peer.missing(vertex)->0),
{
    if let Vertex::Vote(vote) = vertex {
        lemma_dependency_there(m, peer, vote);
    }
}

} // verus!
