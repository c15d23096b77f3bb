//! Finality signatures and where they came from.

use crate::hash::BlockHash;
use crate::keys::PublicKey;
use crate::types::FinalitySignature;
use vstd::prelude::*;

verus! {

/// A finality signature and its origin.
#[derive(Clone, Copy, Debug)]
pub enum Signature {
    /// Created by this node.
    Local(FinalitySignature),
    /// Received from another node.
    External(FinalitySignature),
}

impl Signature {
    /// The finality signature itself.
    pub open spec fn inner(self) -> FinalitySignature {
        match self {
            Signature::Local(fs) => fs,
            Signature::External(fs) => fs,
        }
    }

    /// Returns the finality signature itself.
    pub fn to_inner(&self) -> (r: &FinalitySignature)
        ensures
            *r == self.inner(),
    {
        match self {
            Signature::Local(fs) => fs,
            Signature::External(fs) => fs,
        }
    }

    /// Returns the key of the signing validator.
    pub fn public_key(&self) -> (r: PublicKey)
        ensures
            r == self.inner().public_key,
    {
        self.to_inner().public_key
    }

    /// Returns the signature over the block hash.
    pub fn signature(&self) -> (r: crate::keys::Signature)
        ensures
            r == self.inner().signature,
    {
        self.to_inner().signature
    }

    /// Returns the hash of the signed block.
    pub fn block_hash(&self) -> (r: BlockHash)
        ensures
            r == self.inner().block_hash,
    {
        self.to_inner().block_hash
    }

    /// Returns whether this node created the signature.
    pub fn is_local(&self) -> (r: bool)
        ensures
            r == (self is Local),
    {
        match self {
            Signature::Local(_) => true,
            Signature::External(_) => false,
        }
    }

    /// Returns the finality signature itself.
    pub fn take(self) -> (r: FinalitySignature)
        ensures
            r == self.inner(),
    {
        match self {
            Signature::Local(fs) => fs,
            Signature::External(fs) => fs,
        }
    }
}

} // verus!
