//! The consensus component: eras and the protocol that runs in each of them.

pub mod config;
pub mod era;
pub mod era_supervisor;
pub mod highway;
pub mod laws;

use crate::timestamp::Timestamp;
use vstd::prelude::*;

verus! {

/// Information about the context in which a new block is created.
#[derive(Clone, Copy, Debug, PartialEq, Eq, Structural)]
pub struct BlockContext {
    pub timestamp: Timestamp,
    pub height: u64,
}

impl BlockContext {
    /// Returns the block's timestamp.
    pub fn timestamp(&self) -> (r: Timestamp)
        ensures
            r == self.timestamp,
    {
        self.timestamp
    }

    /// Returns the block's relative height, i.e. the number of ancestors in the current era.
    pub fn height(&self) -> (r: u64)
        ensures
            r == self.height,
    {
        self.height
    }
}

} // verus!
