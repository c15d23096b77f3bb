//! The deterministic core of a Casper node: consensus, block proposal and validation, the linear
//! chain, storage, the auction and protocol upgrades, as verified state machines.

pub mod collections;
pub mod text;
pub mod timestamp;
pub mod hash;
pub mod uint;
pub mod ordered;
pub mod keys;
pub mod types;
pub mod linear_chain;
pub mod deploy;
pub mod appendable_block;
pub mod block_validator;
pub mod bytes;
pub mod chainspec;
pub mod version;
pub mod block_proposer;
pub mod storage;
pub mod upgrade;
pub mod mappings;
pub mod auction;
pub mod auction_state;
pub mod reactor;
pub mod network;
pub mod linear_chain_sync;
pub mod consensus;
