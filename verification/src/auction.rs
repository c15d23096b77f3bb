//! The auction: what it stores, and what it needs from its surroundings.

pub mod detail;
pub mod laws;
pub mod memory;

use crate::keys::{AccountHash, Key, PublicKey, URef};
use crate::ordered::OrderedMap;
use crate::uint::U512;
use std::rc::Rc;
use vstd::prelude::*;

verus! {

/// Why something could not be done.
#[derive(Clone, Copy, Debug, PartialEq, Eq, Structural)]
pub enum Error {
    /// Unable to find named key in the contract's named keys.
    MissingKey,
    /// Given named key contains invalid variant.
    InvalidKeyVariant,
    /// Value under an uref does not exist.
    MissingValue,
    /// Values could not be read or written.
    Storage,
    /// Invalid amount of motes.
    InvalidAmount,
    /// The balance of a purse could not be found out.
    GetBalance,
    /// The caller may not do this.
    InvalidCaller,
    /// More is to be unbonded than there is.
    UnbondTooLarge,
    /// The number of validator slots does not fit.
    InvalidValidatorSlotsValue,
    /// A transfer to an unbonding purse failed.
    TransferToUnbondingPurse,
}

/// A delegator's stake with a validator.
#[derive(Clone, Copy, Debug)]
pub struct Delegator {
    pub staked_amount: U512,
    pub bonding_purse: URef,
    pub delegatee: PublicKey,
}

/// A validator's bid.
pub struct Bid {
    /// The purse that was used for bonding.
    pub bonding_purse: URef,
    /// The amount of tokens staked by a validator (not including delegators).
    pub staked_amount: U512,
    /// Delegation rate.
    pub delegation_rate: u64,
    /// The era in which locked funds are released, if they are locked.
    pub release_era: Option<u64>,
    /// This validator's delegators, by their public keys.
    pub delegators: OrderedMap<PublicKey, Delegator>,
}

/// The validators' bids.
pub type Bids = OrderedMap<PublicKey, Bid>;

/// Bids and delegators are in order.
pub open spec fn bids_ok(bids: Seq<(PublicKey, Bid)>) -> bool {
    forall|i: int| 0 <= i < bids.len() ==> (#[trigger] bids[i]).1.delegators.wf()
}

/// Tokens that are being unbonded.
#[derive(Clone, Copy, Debug)]
pub struct UnbondingPurse {
    /// The purse that was used for bonding.
    pub bonding_purse: URef,
    /// The validator's key.
    pub validator_public_key: PublicKey,
    /// The key of who is unbonding.
    pub unbonder_public_key: PublicKey,
    /// The era in which this was asked for.
    pub era_of_creation: u64,
    /// The amount.
    pub amount: U512,
}

/// What is being unbonded, by validators.
pub type UnbondingPurses = OrderedMap<PublicKey, Vec<UnbondingPurse>>;

/// Who receives a validator's seigniorage.
pub struct SeigniorageRecipient {
    /// The validator's stake.
    pub stake: U512,
    /// The validator's delegation rate.
    pub delegation_rate: u64,
    /// The delegators' stakes.
    pub delegators: OrderedMap<PublicKey, U512>,
}

/// The recipients of seigniorage, by eras and validators.
pub type SeigniorageRecipientsSnapshot = OrderedMap<u64, OrderedMap<PublicKey, SeigniorageRecipient>>;

/// A share of the seigniorage.
#[derive(Clone, Copy, Debug)]
pub enum SeigniorageAllocation {
    /// What a validator gets.
    Validator {
        validator_public_key: PublicKey,
        amount: U512,
    },
    /// What a delegator gets.
    Delegator {
        delegator_public_key: PublicKey,
        validator_public_key: PublicKey,
        amount: U512,
    },
}

/// A value that the auction stores.
pub enum AuctionValue {
    U32(u32),
    U64(u64),
    Bids(Rc<Bids>),
    UnbondingPurses(Rc<UnbondingPurses>),
    SeigniorageRecipientsSnapshot(Rc<SeigniorageRecipientsSnapshot>),
}

impl AuctionValue {
    /// Maps are in order.
    pub open spec fn wf(self) -> bool {
        match self {
            AuctionValue::Bids(bids) => bids.wf() && bids_ok(bids@),
            AuctionValue::UnbondingPurses(purses) => purses.wf(),
            AuctionValue::SeigniorageRecipientsSnapshot(snapshot) => snapshot.wf(),
            _ => true,
        }
    }

    /// Returns another handle to the same value.
    pub fn share(&self) -> (r: AuctionValue)
        ensures
            r == *self,
    {
        match self {
            AuctionValue::U32(n) => AuctionValue::U32(*n),
            AuctionValue::U64(n) => AuctionValue::U64(*n),
            AuctionValue::Bids(bids) => AuctionValue::Bids(bids.clone()),
            AuctionValue::UnbondingPurses(purses) => AuctionValue::UnbondingPurses(purses.clone()),
            AuctionValue::SeigniorageRecipientsSnapshot(snapshot) => AuctionValue::SeigniorageRecipientsSnapshot(
                snapshot.clone(),
            ),
        }
    }
}

/// What the auction needs from its surroundings: stored values, the caller's identity, and purses.
pub trait AuctionProvider: Sized {
    /// All that answers and changes depend on.
    type State;

    /// The current state.
    spec fn state(&self) -> Self::State;

    /// The state is well-formed.
    spec fn wf(&self) -> bool;

    /// Who is calling.
    spec fn caller_in(s: Self::State) -> AccountHash;

    /// The key with the given name.
    spec fn key_in(s: Self::State, name: Seq<char>) -> Option<Key>;

    /// What reading a reference gives.
    spec fn value_in(s: Self::State, uref: URef) -> Result<Option<AuctionValue>, Error>;

    /// The state after a value was written, or why it was not.
    spec fn written(s: Self::State, uref: URef, value: AuctionValue) -> Result<Self::State, Error>;

    /// What is in a purse.
    spec fn balance_in(s: Self::State, purse: URef) -> Result<Option<U512>, Error>;

    /// The state after a transfer from a purse to an account, if it was made.
    spec fn transferred(s: Self::State, source: URef, target: AccountHash, amount: U512) -> Option<Self::State>;

    /// A value that was written is what is read, and nothing else changes for the auction.
    proof fn lemma_written(s: Self::State, uref: URef, value: AuctionValue)
        ensures
            Self::written(s, uref, value) matches Ok(after) ==> {
                &&& Self::value_in(after, uref) == Ok::<Option<AuctionValue>, Error>(Some(value))
                &&& forall|other: URef| other != uref ==> #[trigger] Self::value_in(after, other) == Self::value_in(s, other)
                &&& forall|name: Seq<char>| #[trigger] Self::key_in(after, name) == Self::key_in(s, name)
                &&& Self::caller_in(after) == Self::caller_in(s)
            },
    ;

    /// Returns who is calling.
    fn get_caller(&self) -> (r: AccountHash)
        requires
            self.wf(),
        ensures
            r == Self::caller_in(self.state()),
    ;

    /// Returns the key with the given name.
    fn get_key(&self, name: &str) -> (r: Option<Key>)
        requires
            self.wf(),
        ensures
            r == Self::key_in(self.state(), name@),
    ;

    /// Reads a reference.
    fn read(&self, uref: URef) -> (r: Result<Option<AuctionValue>, Error>)
        requires
            self.wf(),
        ensures
            r == Self::value_in(self.state(), uref),
            r matches Ok(Some(value)) ==> value.wf(),
    ;

    /// Writes a value.
    fn write(&mut self, uref: URef, value: AuctionValue) -> (r: Result<(), Error>)
        requires
            old(self).wf(),
            value.wf(),
        ensures
            final(self).wf(),
            match Self::written(old(self).state(), uref, value) {
                Ok(after) => r is Ok && final(self).state() == after,
                Err(e) => r == Err::<(), Error>(e) && final(self).state() == old(self).state(),
            },
    ;

    /// Returns what is in a purse.
    fn get_balance(&self, purse: URef) -> (r: Result<Option<U512>, Error>)
        requires
            self.wf(),
        ensures
            r == Self::balance_in(self.state(), purse),
    ;

    /// Transfers from a purse to an account. Returns whether that worked.
    fn transfer_purse_to_account(&mut self, source: URef, target: AccountHash, amount: U512) -> (r: bool)
        requires
            old(self).wf(),
        ensures
            final(self).wf(),
            match Self::transferred(old(self).state(), source, target, amount) {
                Some(after) => r && final(self).state() == after,
                None => !r && final(self).state() == old(self).state(),
            },
    ;
}

} // verus!
