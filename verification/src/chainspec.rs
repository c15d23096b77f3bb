//! The rules of a chain, on which all nodes agree.

use crate::deploy::DeployConfig;
use crate::timestamp::{TimeDiff, Timestamp};
use vstd::prelude::*;

verus! {

/// The rules of the Highway protocol.
#[derive(Clone, Copy, Debug, PartialEq, Eq, Structural)]
pub struct HighwayConfig {
    /// When era 0 starts.
    pub genesis_era_start_timestamp: Timestamp,
    /// The minimum duration of an era.
    pub era_duration: TimeDiff,
    /// The minimum number of blocks in an era.
    pub minimum_era_height: u64,
    /// The percentage of the total weight that counts as fault tolerance.
    pub finality_threshold_percent: u8,
    /// The minimum round exponent.
    pub minimum_round_exponent: u8,
}

/// The rules at the beginning of a chain.
pub struct GenesisConfig {
    /// The name of the chain.
    pub name: String,
    /// When the chain begins.
    pub timestamp: Timestamp,
    /// The rules of the Highway protocol.
    pub highway_config: HighwayConfig,
    /// The rules for deploys.
    pub deploy_config: DeployConfig,
}

/// The first block to which a protocol upgrade applies.
#[derive(Clone, Copy, Debug, PartialEq, Eq, Structural)]
pub struct ActivationPoint {
    pub rank: u64,
}

/// A protocol upgrade.
pub struct UpgradePoint {
    /// When the upgrade applies.
    pub activation_point: ActivationPoint,
    /// The code that installs the upgrade.
    pub upgrade_installer_bytes: Option<Vec<u8>>,
    /// The arguments of that code.
    pub upgrade_installer_args: Option<Vec<u8>>,
}

/// The rules of a chain.
pub struct Chainspec {
    pub genesis: GenesisConfig,
    /// The upgrades, in the order of their activation points.
    pub upgrades: Vec<UpgradePoint>,
}

} // verus!
