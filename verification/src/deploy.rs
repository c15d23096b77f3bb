//! Deploys: what a block proposer or validator has to know of them.

use crate::hash::{DeployHash, Digest};
use crate::keys::PublicKey;
use crate::timestamp::{TimeDiff, Timestamp};
use crate::uint::U512;
use std::rc::Rc;
use vstd::prelude::*;

verus! {

/// The rules for deploys and for the blocks that contain them.
#[derive(Clone, Copy, Debug, PartialEq, Eq, Structural)]
pub struct DeployConfig {
    /// Maximum amount any deploy can pay.
    pub max_payment_cost: U512,
    /// Maximum time to live any deploy can specify.
    pub max_ttl: TimeDiff,
    /// Maximum number of other deploys that a deploy can depend on.
    pub max_dependencies: u8,
    /// Maximum block size in bytes.
    pub max_block_size: u32,
    /// Maximum number of non-transfer deploys in a block.
    pub block_max_deploy_count: u32,
    /// Maximum number of transfer deploys in a block.
    pub block_max_transfer_count: u32,
    /// Maximum sum of payment across all deploys in a block.
    pub block_gas_limit: u64,
}

impl Default for DeployConfig {
    fn default() -> (r: DeployConfig)
        ensures
            r.max_payment_cost@ == 0,
            r.max_ttl == TimeDiff(86_400_000),
            r.max_dependencies == 10,
            r.max_block_size == 10_485_760,
            r.block_max_deploy_count == 10,
            r.block_max_transfer_count == 1_000,
            r.block_gas_limit == 10_000_000_000_000,
    {
        DeployConfig {
            max_payment_cost: U512::zero(),
            max_ttl: TimeDiff(86_400_000),
            max_dependencies: 10,
            max_block_size: 10_485_760,
            block_max_deploy_count: 10,
            block_max_transfer_count: 1_000,
            block_gas_limit: 10_000_000_000_000,
        }
    }
}

/// The header portion of a deploy.
#[derive(Debug)]
pub struct DeployHeader {
    /// The key of the account that sent the deploy.
    pub account: PublicKey,
    /// When the deploy was created.
    pub timestamp: Timestamp,
    /// For how long the deploy stays valid.
    pub ttl: TimeDiff,
    /// The price of gas that the sender is ready to pay.
    pub gas_price: u64,
    /// The hash of the deploy's body.
    pub body_hash: Digest,
    /// The deploys that have to be executed before this one.
    pub dependencies: Vec<DeployHash>,
    /// The name of the chain for which the deploy is meant.
    pub chain_name: String,
}

impl DeployHeader {
    /// The moment at which the deploy expires can be told.
    pub open spec fn wf(&self) -> bool {
        self.timestamp.0 + self.ttl.0 <= u64::MAX
    }

    /// The lifespan of the deploy ended before `current_instant`.
    pub open spec fn is_expired(&self, current_instant: Timestamp) -> bool {
        self.timestamp.0 + self.ttl.0 < current_instant.0
    }

    /// The deploy keeps the rules and is alive at `current_instant`.
    pub open spec fn valid_at(&self, config: DeployConfig, current_instant: Timestamp) -> bool {
        &&& self.ttl.0 <= config.max_ttl.0
        &&& self.dependencies@.len() <= config.max_dependencies
        &&& self.timestamp.0 <= current_instant.0
        &&& !self.is_expired(current_instant)
    }

    /// Returns whether the deploy has expired.
    pub fn expired(&self, current_instant: Timestamp) -> (r: bool)
        requires
            self.wf(),
        ensures
            r == self.is_expired(current_instant),
    {
        let lifespan = self.timestamp + self.ttl;
        lifespan.0 < current_instant.0
    }

    /// Returns whether the deploy can be part of a block with the given timestamp.
    pub fn is_valid(&self, config: &DeployConfig, current_instant: Timestamp) -> (r: bool)
        requires
            self.wf(),
        ensures
            r == self.valid_at(*config, current_instant),
    {
        let ttl_valid = self.ttl.0 <= config.max_ttl.0;
        let dependencies_valid = self.dependencies.len() <= config.max_dependencies as usize;
        let timestamp_valid = self.timestamp.0 <= current_instant.0;
        ttl_valid && dependencies_valid && timestamp_valid && !self.expired(current_instant)
    }
}

/// A deploy.
#[derive(Debug)]
pub struct Deploy {
    /// The hash identifying the deploy.
    pub hash: DeployHash,
    /// The header.
    pub header: Rc<DeployHeader>,
    /// The payment and session code and the approvals, serialized.
    pub body: Vec<u8>,
}

/// A deploy as far as its place in a block depends on it.
#[derive(Debug)]
pub enum DeployType {
    /// A transfer.
    Transfer {
        header: Rc<DeployHeader>,
        /// The amount that the deploy pays.
        payment_amount: U512,
        /// The size of the deploy in bytes.
        size: usize,
    },
    /// Any other deploy.
    Other {
        header: Rc<DeployHeader>,
        /// The amount that the deploy pays.
        payment_amount: U512,
        /// The size of the deploy in bytes.
        size: usize,
    },
}

impl DeployType {
    /// The header.
    pub open spec fn spec_header(&self) -> DeployHeader {
        match *self {
            DeployType::Transfer { header, .. } => *header,
            DeployType::Other { header, .. } => *header,
        }
    }

    /// The amount that the deploy pays.
    pub open spec fn spec_payment(&self) -> int {
        match *self {
            DeployType::Transfer { payment_amount, .. } => payment_amount@,
            DeployType::Other { payment_amount, .. } => payment_amount@,
        }
    }

    /// The size of the deploy.
    pub open spec fn spec_size(&self) -> int {
        match *self {
            DeployType::Transfer { size, .. } => size as int,
            DeployType::Other { size, .. } => size as int,
        }
    }

    /// Returns the header.
    pub fn header(&self) -> (r: &DeployHeader)
        ensures
            *r == self.spec_header(),
    {
        match self {
            DeployType::Transfer { header, .. } => &**header,
            DeployType::Other { header, .. } => &**header,
        }
    }

    /// Returns the amount that the deploy pays.
    pub fn payment_amount(&self) -> (r: U512)
        ensures
            r@ == self.spec_payment(),
    {
        match self {
            DeployType::Transfer { payment_amount, .. } => *payment_amount,
            DeployType::Other { payment_amount, .. } => *payment_amount,
        }
    }

    /// Returns the size of the deploy.
    pub fn size(&self) -> (r: usize)
        ensures
            r == self.spec_size(),
    {
        match self {
            DeployType::Transfer { size, .. } => *size,
            DeployType::Other { size, .. } => *size,
        }
    }
}

} // verus!
