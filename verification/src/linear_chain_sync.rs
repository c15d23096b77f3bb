//! The events of the component that downloads the linear chain.

use crate::hash::{BlockHash, DeployHash};
use crate::types::Block;
use std::rc::Rc;
use vstd::prelude::*;
use vstd::string::StringExecFns;

verus! {

/// Where something was found.
pub enum FetchResult<T, I> {
    /// It was in storage.
    FromStorage(T),
    /// A peer has sent it.
    FromPeer(T, I),
}

/// An event of the component.
pub enum Event<I> {
    Start(BlockHash),
    GetBlockResult(BlockHash, Option<FetchResult<Rc<Block>, I>>),
    DeployFound(DeployHash),
    DeployNotFound(DeployHash),
    LinearChainBlocksDownloaded(),
    NewPeerConnected(I),
}

impl<I> Event<I> {
    /// The text of an event that carries something with the text `subject`, and a result with the text
    /// `result`.
    pub open spec fn text(self, subject: Seq<char>, result: Seq<char>) -> Seq<char> {
        match self {
            Event::Start(_) => "Start syncing from "@ + subject + "."@,
            Event::GetBlockResult(_, _) => "Get block result for "@ + subject + ": "@ + result,
            Event::DeployFound(_) => "Deploy found: "@ + subject,
            Event::DeployNotFound(_) => "Deploy not found: "@ + subject,
            Event::LinearChainBlocksDownloaded() => "Linear chain blocks downloaded"@,
            Event::NewPeerConnected(_) => "A new peer connected: "@ + subject,
        }
    }

    /// Returns the text of this event, given those of the hash or peer and of the result that it
    /// carries.
    pub fn to_text(&self, subject: &str, result: &str) -> (r: String)
        ensures
            r@ == self.text(subject@, result@),
    {
        match self {
            Event::Start(_) => String::from_str("Start syncing from ").concat(subject).concat("."),
            Event::GetBlockResult(_, _) => String::from_str("Get block result for ").concat(subject).concat(": ").concat(
                result,
            ),
            Event::DeployFound(_) => String::from_str("Deploy found: ").concat(subject),
            Event::DeployNotFound(_) => String::from_str("Deploy not found: ").concat(subject),
            Event::LinearChainBlocksDownloaded() => String::from_str("Linear chain blocks downloaded"),
            Event::NewPeerConnected(_) => String::from_str("A new peer connected: ").concat(subject),
        }
    }
}

} // verus!
