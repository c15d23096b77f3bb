//! Blocks under construction, which keep the limits of the chain.

use crate::deploy::{DeployConfig, DeployType};
use crate::hash::DeployHash;
use crate::timestamp::Timestamp;
use crate::uint::U512;
use vstd::prelude::*;

verus! {

/// Why a deploy cannot be added to a block.
#[derive(Clone, Copy, Debug, PartialEq, Eq, Structural)]
pub enum AddError {
    /// The block contains the deploy already.
    Duplicate,
    /// The deploy breaks the rules or is not alive when the block is proposed.
    InvalidDeploy,
    /// The block has as many transfers as it can have.
    TransferCount,
    /// The block has as many other deploys as it can have.
    DeployCount,
    /// The block would become too large.
    BlockSize,
    /// The payment does not make an amount of gas.
    InvalidGasAmount,
    /// The deploys would use too much gas.
    GasLimit,
}

/// A block that deploys can be added to as long as the limits are kept.
#[derive(Debug)]
pub struct AppendableBlock {
    deploy_config: DeployConfig,
    timestamp: Timestamp,
    deploy_hashes: Vec<DeployHash>,
    transfer_hashes: Vec<DeployHash>,
    total_gas: U512,
    total_size: usize,
}

/// A block under construction.
#[verifier::ext_equal]
pub ghost struct AppendableModel {
    pub deploy_config: DeployConfig,
    pub timestamp: Timestamp,
    pub deploys: Seq<DeployHash>,
    pub transfers: Seq<DeployHash>,
    pub total_gas: int,
    pub total_size: int,
}

impl AppendableModel {
    /// A block without deploys.
    pub open spec fn empty(deploy_config: DeployConfig, timestamp: Timestamp) -> AppendableModel {
        AppendableModel {
            deploy_config,
            timestamp,
            deploys: Seq::empty(),
            transfers: Seq::empty(),
            total_gas: 0,
            total_size: 0,
        }
    }

    /// The gas that a deploy pays for.
    pub open spec fn gas_of(deploy: DeployType) -> int {
        deploy.spec_payment() / (deploy.spec_header().gas_price as int)
    }

    /// What forbids adding the deploy, if anything does.
    pub open spec fn add_error(self, hash: DeployHash, deploy: DeployType) -> Option<AddError> {
        if self.deploys.contains(hash) || self.transfers.contains(hash) {
            Some(AddError::Duplicate)
        } else if !deploy.spec_header().valid_at(self.deploy_config, self.timestamp) {
            Some(AddError::InvalidDeploy)
        } else if deploy is Transfer {
            if self.transfers.len() >= self.deploy_config.block_max_transfer_count {
                Some(AddError::TransferCount)
            } else {
                None
            }
        } else if self.deploys.len() >= self.deploy_config.block_max_deploy_count {
            Some(AddError::DeployCount)
        } else if self.total_size + deploy.spec_size() > self.deploy_config.max_block_size {
            Some(AddError::BlockSize)
        } else if deploy.spec_header().gas_price == 0 || self.total_gas + AppendableModel::gas_of(deploy)
            >= crate::uint::limit() {
            Some(AddError::InvalidGasAmount)
        } else if self.total_gas + AppendableModel::gas_of(deploy) > self.deploy_config.block_gas_limit {
            Some(AddError::GasLimit)
        } else {
            None
        }
    }

    /// The block with one more deploy.
    pub open spec fn with_deploy(self, hash: DeployHash, deploy: DeployType) -> AppendableModel {
        if deploy is Transfer {
            AppendableModel { transfers: self.transfers.push(hash), ..self }
        } else {
            AppendableModel {
                deploys: self.deploys.push(hash),
                total_gas: self.total_gas + AppendableModel::gas_of(deploy),
                total_size: self.total_size + deploy.spec_size(),
                ..self
            }
        }
    }

    /// The limits are kept and nothing occurs twice.
    pub open spec fn within_limits(self) -> bool {
        &&& self.deploys.len() <= self.deploy_config.block_max_deploy_count
        &&& self.transfers.len() <= self.deploy_config.block_max_transfer_count
        &&& self.total_gas <= self.deploy_config.block_gas_limit
        &&& self.total_size <= self.deploy_config.max_block_size
        &&& (self.deploys + self.transfers).no_duplicates()
    }
}

impl View for AppendableBlock {
    type V = AppendableModel;

    closed spec fn view(&self) -> AppendableModel {
        AppendableModel {
            deploy_config: self.deploy_config,
            timestamp: self.timestamp,
            deploys: self.deploy_hashes@,
            transfers: self.transfer_hashes@,
            total_gas: self.total_gas@,
            total_size: self.total_size as int,
        }
    }
}

/// Returns whether a hash is in the list.
fn contains(hashes: &Vec<DeployHash>, hash: &DeployHash) -> (r: bool)
    ensures
        r == hashes@.contains(*hash),
{
    let mut i: usize = 0;
    while i < hashes.len()
        invariant
            i <= hashes@.len(),
            forall|j: int| 0 <= j < i ==> hashes@[j] != *hash,
        decreases hashes@.len() - i,
    {
        if hashes[i] == *hash {
            assert(hashes@[i as int] == *hash);
            return true;
        }
        i += 1;
    }
    false
}

impl AppendableBlock {
    /// Creates an empty block.
    pub fn new(deploy_config: DeployConfig, timestamp: Timestamp) -> (r: AppendableBlock)
        ensures
            r@ == AppendableModel::empty(deploy_config, timestamp),
    {
        AppendableBlock {
            deploy_config,
            timestamp,
            deploy_hashes: Vec::new(),
            transfer_hashes: Vec::new(),
            total_gas: U512::zero(),
            total_size: 0,
        }
    }

    /// Attempts to add a deploy to the block; returns an error if that would violate a validity
    /// condition.
    pub fn add(&mut self, hash: DeployHash, deploy_type: &DeployType) -> (r: Result<(), AddError>)
        requires
            deploy_type.spec_header().wf(),
        ensures
            match r {
                Ok(()) => old(self)@.add_error(hash, *deploy_type) is None && final(self)@ == old(self)@.with_deploy(
                    hash,
                    *deploy_type,
                ),
                Err(e) => old(self)@.add_error(hash, *deploy_type) == Some(e) && final(self)@ == old(self)@,
            },
    {
        if contains(&self.deploy_hashes, &hash) || contains(&self.transfer_hashes, &hash) {
            return Err(AddError::Duplicate);
        }
        if !deploy_type.header().is_valid(&self.deploy_config, self.timestamp) {
            return Err(AddError::InvalidDeploy);
        }
        match deploy_type {
            DeployType::Transfer { .. } => {
                if self.transfer_hashes.len() as u64 >= self.deploy_config.block_max_transfer_count as u64 {
                    return Err(AddError::TransferCount);
                }
                self.transfer_hashes.push(hash);
                Ok(())
            },
            DeployType::Other { .. } => {
                if self.deploy_hashes.len() as u64 >= self.deploy_config.block_max_deploy_count as u64 {
                    return Err(AddError::DeployCount);
                }
                let new_total_size = match self.total_size.checked_add(deploy_type.size()) {
                    Some(size) => {
                        if size as u64 > self.deploy_config.max_block_size as u64 {
                            return Err(AddError::BlockSize);
                        }
                        size
                    },
                    None => {
                        return Err(AddError::BlockSize);
                    },
                };
                let gas_price = deploy_type.header().gas_price;
                if gas_price == 0 {
                    return Err(AddError::InvalidGasAmount);
                }
                let gas = deploy_type.payment_amount().divided_by(&U512::from_u64(gas_price));
                let new_total_gas = match self.total_gas.checked_add(&gas) {
                    Some(total) => total,
                    None => {
                        return Err(AddError::InvalidGasAmount);
                    },
                };
                if U512::from_u64(self.deploy_config.block_gas_limit).less_than(&new_total_gas) {
                    return Err(AddError::GasLimit);
                }
                self.deploy_hashes.push(hash);
                self.total_gas = new_total_gas;
                self.total_size = new_total_size;
                Ok(())
            },
        }
    }
}

/// Adding deploys never leads out of the limits.
pub proof fn law_limits_kept(m: AppendableModel, hash: DeployHash, deploy: DeployType)
    requires
        m.within_limits(),
        m.add_error(hash, deploy) is None,
    ensures
        m.with_deploy(hash, deploy).within_limits(),
{
    let n = m.with_deploy(hash, deploy);
    let before = m.deploys + m.transfers;
    let after = n.deploys + n.transfers;
    let at = if deploy is Transfer {
        before.len() as int
    } else {
        m.deploys.len() as int
    };
    assert(after =~= before.insert(at, hash));
    assert(!before.contains(hash)) by {
        if before.contains(hash) {
            let i = before.index_of(hash);
            if i < m.deploys.len() {
                assert(m.deploys[i] == hash);
            } else {
                assert(m.transfers[i - m.deploys.len()] == hash);
            }
        }
    }
    assert forall|a: int, b: int| 0 <= a < after.len() && 0 <= b < after.len() && a != b implies after[a] != after[b] by {
        let a0 = if a < at { a } else { a - 1 };
        let b0 = if b < at { b } else { b - 1 };
        if a != at {
            assert(after[a] == before[a0]);
        }
        if b != at {
            assert(after[b] == before[b0]);
        }
    }
}

/// A deploy can be added exactly if it is not in the block yet, neither as a transfer nor otherwise, lives
/// no longer and has no more dependencies than allowed, was made before the block and has not expired, and
/// there is room: for one more transfer, or else for one more deploy, for its size, and for its gas, which
/// is what its payment buys at its price.
pub proof fn law_deploy_can_be_added(m: AppendableModel, hash: DeployHash, deploy: DeployType)
    ensures
        m.add_error(hash, deploy) is None <==> {
            let header = deploy.spec_header();
            &&& !m.deploys.contains(hash)
            &&& !m.transfers.contains(hash)
            &&& header.ttl.0 <= m.deploy_config.max_ttl.0
            &&& header.dependencies@.len() <= m.deploy_config.max_dependencies
            &&& header.timestamp.0 <= m.timestamp.0
            &&& header.timestamp.0 + header.ttl.0 >= m.timestamp.0
            &&& match deploy {
                DeployType::Transfer { .. } => m.transfers.len() < m.deploy_config.block_max_transfer_count,
                DeployType::Other { payment_amount, size, .. } => {
                    &&& m.deploys.len() < m.deploy_config.block_max_deploy_count
                    &&& m.total_size + size <= m.deploy_config.max_block_size
                    &&& header.gas_price > 0
                    &&& m.total_gas + payment_amount@ / (header.gas_price as int) <= m.deploy_config.block_gas_limit
                },
            }
        },
{
    assert(m.deploy_config.block_gas_limit < crate::uint::limit());
}

/// A deploy that is added takes up its size and its gas and is the last of its kind; a transfer takes up
/// neither. Nothing else changes.
pub proof fn law_added_deploy_is_counted(m: AppendableModel, hash: DeployHash, deploy: DeployType)
    ensures
        ({
            let after = m.with_deploy(hash, deploy);
            &&& after.deploy_config == m.deploy_config
            &&& after.timestamp == m.timestamp
            &&& match deploy {
                DeployType::Transfer { .. } => {
                    &&& after.deploys == m.deploys
                    &&& after.transfers.len() == m.transfers.len() + 1
                    &&& after.transfers.drop_last() == m.transfers
                    &&& after.transfers.last() == hash
                    &&& after.total_gas == m.total_gas
                    &&& after.total_size == m.total_size
                },
                DeployType::Other { header, payment_amount, size } => {
                    &&& after.transfers == m.transfers
                    &&& after.deploys.len() == m.deploys.len() + 1
                    &&& after.deploys.drop_last() == m.deploys
                    &&& after.deploys.last() == hash
                    &&& after.total_size == m.total_size + size
                    &&& header.gas_price > 0 ==> (after.total_gas - m.total_gas) * header.gas_price <= payment_amount@ < (
                    after.total_gas - m.total_gas + 1) * header.gas_price
                },
            }
        }),
{
    let after = m.with_deploy(hash, deploy);
    match deploy {
        DeployType::Transfer { .. } => {
            assert(after.transfers.drop_last() =~= m.transfers);
        },
        DeployType::Other { header, payment_amount, .. } => {
            assert(after.deploys.drop_last() =~= m.deploys);
            let price = header.gas_price as int;
            let payment = payment_amount@;
            if price > 0 {
                let q = payment / price;
                assert(q * price <= payment < (q + 1) * price) by (nonlinear_arith)
                    requires
                        q == payment / price,
                        price > 0,
                ;
            }
        },
    }
}

/// Why a deploy cannot be added: each error tells the first thing that is in the way.
pub proof fn law_errors_of_adding(m: AppendableModel, hash: DeployHash, deploy: DeployType)
    ensures
        ({
            let header = deploy.spec_header();
            let new = !m.deploys.contains(hash) && !m.transfers.contains(hash);
            let valid = new && header.ttl.0 <= m.deploy_config.max_ttl.0 && header.dependencies@.len()
                <= m.deploy_config.max_dependencies && header.timestamp.0 <= m.timestamp.0 && header.timestamp.0 + header.ttl.0
                >= m.timestamp.0;
            match (m.add_error(hash, deploy), deploy) {
                (None, _) => valid,
                (Some(AddError::Duplicate), _) => !new,
                (Some(AddError::InvalidDeploy), _) => new && !valid,
                (Some(AddError::TransferCount), DeployType::Transfer { .. }) => valid && m.transfers.len()
                    >= m.deploy_config.block_max_transfer_count,
                (Some(AddError::DeployCount), DeployType::Other { .. }) => valid && m.deploys.len()
                    >= m.deploy_config.block_max_deploy_count,
                (Some(AddError::BlockSize), DeployType::Other { size, .. }) => valid && m.deploys.len()
                    < m.deploy_config.block_max_deploy_count && m.total_size + size > m.deploy_config.max_block_size,
                (Some(AddError::InvalidGasAmount), DeployType::Other { payment_amount, size, .. }) => valid && m.total_size + size
                    <= m.deploy_config.max_block_size && (header.gas_price == 0 || m.total_gas + payment_amount@ / (
                header.gas_price as int) >= crate::uint::limit()),
                (Some(AddError::GasLimit), DeployType::Other { payment_amount, size, .. }) => valid && m.total_size + size
                    <= m.deploy_config.max_block_size && header.gas_price > 0 && m.total_gas + payment_amount@ / (
                header.gas_price as int) > m.deploy_config.block_gas_limit,
                _ => false,
            }
        }),
{
}

} // verus!
