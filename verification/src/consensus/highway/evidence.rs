//! Evidence that a validator is faulty.

use crate::collections::MapKey;
use crate::consensus::highway::context::{Context, ContextTypes};
use crate::consensus::highway::validators::ValidatorIndex;
use crate::consensus::highway::vertex::SignedWireVote;
use std::rc::Rc;
use vstd::prelude::*;

verus! {

/// An error due to invalid evidence.
#[derive(Clone, Copy, Debug, PartialEq, Eq, Structural)]
pub enum EvidenceError {
    /// The two votes are the same.
    EquivocationSameVote,
    /// The votes were created by different validators.
    EquivocationDifferentCreators,
    /// The votes have different sequence numbers.
    EquivocationDifferentSeqNumbers,
    /// The votes were made for another protocol instance.
    EquivocationInstanceId,
    /// The perpetrator is not a validator.
    UnknownPerpetrator,
    /// A signature is invalid.
    Signature,
}

/// Evidence that a validator is faulty.
pub enum Evidence<C: ContextTypes> {
    /// The validator produced two votes with the same sequence number.
    Equivocation(Rc<SignedWireVote<C>>, Rc<SignedWireVote<C>>),
}

impl<C: ContextTypes> Evidence<C> {
    /// The validator accused.
    pub open spec fn accused(self) -> ValidatorIndex {
        match self {
            Evidence::Equivocation(vote0, _) => vote0.wire_vote.creator,
        }
    }

    /// Returns the ID of the faulty validator.
    pub fn perpetrator(&self) -> (r: ValidatorIndex)
        ensures
            r == self.accused(),
    {
        match self {
            Evidence::Equivocation(vote0, _) => vote0.wire_vote.creator,
        }
    }
}

impl<C: Context> Evidence<C> {
    /// What is wrong with the evidence, if anything is, with `id` the ID of the accused.
    pub open spec fn flaw(self, id: C::ValidatorId, instance_id: C::InstanceId) -> Option<EvidenceError> {
        match self {
            Evidence::Equivocation(vote0, vote1) => {
                if vote0.wire_vote.creator != vote1.wire_vote.creator {
                    Some(EvidenceError::EquivocationDifferentCreators)
                } else if vote0.wire_vote.seq_number != vote1.wire_vote.seq_number {
                    Some(EvidenceError::EquivocationDifferentSeqNumbers)
                } else if vote0.wire_vote.instance_id != instance_id || vote1.wire_vote.instance_id != instance_id {
                    Some(EvidenceError::EquivocationInstanceId)
                } else if vote0.wire_vote@ == vote1.wire_vote@ && vote0.signature == vote1.signature {
                    Some(EvidenceError::EquivocationSameVote)
                } else if !C::signed_by(C::vote_hash(vote0.wire_vote@), id, vote0.signature)
                    || !C::signed_by(C::vote_hash(vote1.wire_vote@), id, vote1.signature) {
                    Some(EvidenceError::Signature)
                } else {
                    None
                }
            },
        }
    }

    /// Validates the evidence and returns `Ok(())` if it is valid.
    /// "Validation" can mean different things for different type of evidence.
    ///
    /// - For an equivocation, it checks whether the creators, sequence numbers and instance IDs of
    /// the two votes are the same.
    pub fn validate(&self, v_id: &C::ValidatorId, instance_id: &C::InstanceId) -> (r: Result<(), EvidenceError>)
        ensures
            match r {
                Ok(()) => self.flaw(*v_id, *instance_id) is None,
                Err(e) => self.flaw(*v_id, *instance_id) == Some(e),
            },
    {
        match self {
            Evidence::Equivocation(vote0, vote1) => {
                if vote0.wire_vote.creator != vote1.wire_vote.creator {
                    return Err(EvidenceError::EquivocationDifferentCreators);
                }
                if vote0.wire_vote.seq_number != vote1.wire_vote.seq_number {
                    return Err(EvidenceError::EquivocationDifferentSeqNumbers);
                }
                if !vote0.wire_vote.instance_id.same(instance_id) || !vote1.wire_vote.instance_id.same(
                    instance_id,
                ) {
                    return Err(EvidenceError::EquivocationInstanceId);
                }
                if vote0.same_signed_vote(vote1) {
                    return Err(EvidenceError::EquivocationSameVote);
                }
                if !C::verify_signature(&vote0.hash(), v_id, &vote0.signature) || !C::verify_signature(
                    &vote1.hash(),
                    v_id,
                    &vote1.signature,
                ) {
                    return Err(EvidenceError::Signature);
                }
                Ok(())
            },
        }
    }
}

} // verus!
