//! What an instance of the Highway protocol is made of.

use crate::collections::MapKey;
use crate::consensus::highway::validators::ValidatorIndex;
use crate::consensus::highway::vertex::WireVote;
use crate::ordered::OrdKey;
use vstd::prelude::*;

verus! {

/// The types that an instance of the protocol uses.
pub trait ContextTypes: Sized {
    /// The consensus value type, e.g. a list of transactions, or the hash of one.
    type ConsensusValue: MapKey;

    /// Unique identifiers for validators.
    type ValidatorId: MapKey;

    /// A signature.
    type Signature: MapKey;

    /// Unique identifiers for votes.
    type Hash: OrdKey;

    /// The ID of a consensus protocol instance.
    type InstanceId: MapKey;
}

/// The cryptographic functions that an instance of the protocol uses.
pub trait Context: ContextTypes {
    /// The hash of a vote.
    spec fn vote_hash(vote: crate::consensus::highway::vertex::WireVoteModel<Self>) -> Self::Hash;

    /// The hash that `creator` signs to endorse a vote.
    spec fn endorsement_hash(vote: Self::Hash, creator: ValidatorIndex) -> Self::Hash;

    /// The signature of the hash is one by the given validator.
    spec fn signed_by(hash: Self::Hash, id: Self::ValidatorId, signature: Self::Signature) -> bool;

    /// Returns the hash of a vote.
    fn hash_vote(vote: &WireVote<Self>) -> (r: Self::Hash)
        ensures
            r == Self::vote_hash(vote@),
    ;

    /// Returns the hash that `creator` signs to endorse a vote.
    fn hash_endorsement(vote: &Self::Hash, creator: ValidatorIndex) -> (r: Self::Hash)
        ensures
            r == Self::endorsement_hash(*vote, creator),
    ;

    /// Returns whether the signature of the hash is one by the given validator.
    fn verify_signature(hash: &Self::Hash, id: &Self::ValidatorId, signature: &Self::Signature) -> (r: bool)
        ensures
            r == Self::signed_by(*hash, *id, *signature),
    ;
}

} // verus!
