//! The vertices of the protocol state: votes, evidence and endorsements.

use crate::collections::MapKey;
use crate::consensus::highway::context::{Context, ContextTypes};
use crate::consensus::highway::evidence::Evidence;
use crate::consensus::highway::panorama::Panorama;
use crate::consensus::highway::validators::ValidatorIndex;
use crate::timestamp::Timestamp;
use std::rc::Rc;
use vstd::prelude::*;

verus! {

/// A dependency of a `Vertex` that can be satisfied by one or more other vertices.
pub enum Dependency<C: ContextTypes> {
    /// A vote.
    Vote(C::Hash),
    /// Evidence against a validator.
    Evidence(ValidatorIndex),
    /// Enough endorsements of a vote.
    Endorsement(C::Hash),
}

/// An element of the protocol state, that might depend on other elements.
///
/// It is the vertex in a directed acyclic graph, whose edges are dependencies.
pub enum Vertex<C: ContextTypes> {
    Vote(Rc<SignedWireVote<C>>),
    Evidence(Rc<Evidence<C>>),
    Endorsements(Rc<Endorsements<C>>),
}

/// A vote as it is sent over the wire, possibly containing a new block.
pub struct WireVote<C: ContextTypes> {
    /// The list of latest messages and faults observed by the creator of this message.
    pub panorama: Rc<Panorama<C>>,
    /// The validator who created and sent this vote.
    pub creator: ValidatorIndex,
    /// The protocol instance for which the vote was made.
    pub instance_id: C::InstanceId,
    /// The value that the vote proposes, if it does.
    pub value: Option<C::ConsensusValue>,
    /// The number of earlier messages by the same creator.
    pub seq_number: u64,
    /// When the vote was made.
    pub timestamp: Timestamp,
    /// The round exponent of the round that the vote belongs to.
    pub round_exp: u8,
    /// The votes that the creator takes as endorsed.
    pub endorsed: Vec<C::Hash>,
}

/// A vote.
#[verifier::ext_equal]
pub ghost struct WireVoteModel<C: ContextTypes> {
    pub panorama: Seq<crate::consensus::highway::panorama::Observation<C::Hash>>,
    pub creator: ValidatorIndex,
    pub instance_id: C::InstanceId,
    pub value: Option<C::ConsensusValue>,
    pub seq_number: u64,
    pub timestamp: Timestamp,
    pub round_exp: u8,
    pub endorsed: Seq<C::Hash>,
}

impl<C: ContextTypes> View for WireVote<C> {
    type V = WireVoteModel<C>;

    open spec fn view(&self) -> WireVoteModel<C> {
        WireVoteModel {
            panorama: self.panorama.observations@,
            creator: self.creator,
            instance_id: self.instance_id,
            value: self.value,
            seq_number: self.seq_number,
            timestamp: self.timestamp,
            round_exp: self.round_exp,
            endorsed: self.endorsed@,
        }
    }
}

/// Returns whether two lists hold the same items in the same order.
pub fn same_items<T: MapKey>(a: &Vec<T>, b: &Vec<T>) -> (r: bool)
    ensures
        r == (a@ == b@),
{
    if a.len() != b.len() {
        return false;
    }
    let mut i: usize = 0;
    while i < a.len()
        invariant
            i <= a@.len(),
            a@.len() == b@.len(),
            forall|j: int| 0 <= j < i ==> a@[j] == b@[j],
        decreases a@.len() - i,
    {
        if !a[i].same(&b[i]) {
            return false;
        }
        i += 1;
    }
    assert(a@ =~= b@);
    true
}

impl<C: Context> WireVote<C> {
    /// Returns the vote's hash, which is used as a vote identifier.
    pub fn hash(&self) -> (r: C::Hash)
        ensures
            r == C::vote_hash(self@),
    {
        C::hash_vote(self)
    }

    /// Returns whether two votes are the same.
    pub fn same_vote(&self, other: &WireVote<C>) -> (r: bool)
        ensures
            r == (self@ == other@),
    {
        let same_value = match (&self.value, &other.value) {
            (Some(a), Some(b)) => a.same(b),
            (None, None) => true,
            _ => false,
        };
        same_value && self.panorama.same_panorama(&other.panorama) && self.creator == other.creator
            && self.instance_id.same(&other.instance_id) && self.seq_number == other.seq_number
            && self.timestamp == other.timestamp && self.round_exp == other.round_exp && same_items(
            &self.endorsed,
            &other.endorsed,
        )
    }
}

/// A vote together with its creator's signature.
pub struct SignedWireVote<C: ContextTypes> {
    pub wire_vote: WireVote<C>,
    pub signature: C::Signature,
}

impl<C: Context> SignedWireVote<C> {
    /// Returns the vote's hash.
    pub fn hash(&self) -> (r: C::Hash)
        ensures
            r == C::vote_hash(self.wire_vote@),
    {
        self.wire_vote.hash()
    }

    /// Returns whether two signed votes are the same.
    pub fn same_signed_vote(&self, other: &SignedWireVote<C>) -> (r: bool)
        ensures
            r == (self.wire_vote@ == other.wire_vote@ && self.signature == other.signature),
    {
        self.signature.same(&other.signature) && self.wire_vote.same_vote(&other.wire_vote)
    }
}

/// Endorsements of one vote by several validators.
pub struct Endorsements<C: ContextTypes> {
    /// The endorsed vote.
    pub vote: C::Hash,
    /// Who endorses it, with a signature.
    pub endorsers: Vec<(ValidatorIndex, C::Signature)>,
}

impl<C: ContextTypes> Endorsements<C> {
    /// Returns hash of the endorsed vote.
    pub fn vote(&self) -> (r: &C::Hash)
        ensures
            *r == self.vote,
    {
        &self.vote
    }
}

impl<C: Context> Vertex<C> {
    /// The vertex is what the dependency is on: the vote with that hash, evidence against that
    /// validator, or endorsements of that vote.
    pub open spec fn satisfies(self, dependency: Dependency<C>) -> bool {
        match dependency {
            Dependency::Vote(hash) => self matches Vertex::Vote(vote) && C::vote_hash(vote.wire_vote@) == hash,
            Dependency::Evidence(idx) => self matches Vertex::Evidence(evidence) && evidence.accused() == idx,
            Dependency::Endorsement(hash) => self matches Vertex::Endorsements(e) && e.vote == hash,
        }
    }
}

impl<C: ContextTypes> Vertex<C> {
    /// The consensus value mentioned in this vertex, if any.
    pub open spec fn spec_value(self) -> Option<C::ConsensusValue> {
        match self {
            Vertex::Vote(vote) => vote.wire_vote.value,
            _ => None,
        }
    }

    /// Returns the consensus value mentioned in this vertex, if any.
    pub fn value(&self) -> (r: Option<C::ConsensusValue>)
        ensures
            r == self.spec_value(),
    {
        match self {
            Vertex::Vote(vote) => vote.wire_vote.value,
            Vertex::Evidence(_) | Vertex::Endorsements(_) => None,
        }
    }

    /// Returns the vertex's timestamp, if it has one.
    pub fn timestamp(&self) -> (r: Option<Timestamp>)
        ensures
            r == match *self {
                Vertex::Vote(vote) => Some(vote.wire_vote.timestamp),
                _ => None,
            },
    {
        match self {
            Vertex::Vote(vote) => Some(vote.wire_vote.timestamp),
            Vertex::Evidence(_) | Vertex::Endorsements(_) => None,
        }
    }

    /// Returns another handle on the same vertex.
    pub fn share(&self) -> (r: Vertex<C>)
        ensures
            r == *self,
    {
        match self {
            Vertex::Vote(vote) => Vertex::Vote(vote.clone()),
            Vertex::Evidence(evidence) => Vertex::Evidence(evidence.clone()),
            Vertex::Endorsements(endorsements) => Vertex::Endorsements(endorsements.clone()),
        }
    }
}

} // verus!
