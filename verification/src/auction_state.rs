//! What is told about the auction to clients of a node.

use crate::auction::{Bid as AuctionBid, Bids as AuctionBids};
use crate::hash::Digest;
use crate::keys::PublicKey;
use crate::ordered::{OrdKey, OrderedMap};
use crate::uint::U512;
use vstd::prelude::*;
use vstd::string::StringExecFns;

verus! {

/// Bids table.
pub type Bids = OrderedMap<PublicKey, Bid>;

/// Validator weights by validator key.
pub type ValidatorWeights = OrderedMap<PublicKey, U512>;

/// List of era validators
pub type EraValidators = OrderedMap<u64, ValidatorWeights>;

/// An entry in a founding validator map.
#[derive(Debug)]
pub struct Bid {
    /// The purse that was used for bonding.
    pub bonding_purse: String,
    /// The total amount of staked tokens.
    pub staked_amount: U512,
    /// Delegation rate.
    pub delegation_rate: u64,
    /// A flag that represents a winning entry.
    ///
    /// `Some` indicates locked funds for a specific era and an autowin status, and `None` case
    /// means that funds are unlocked and autowin status is removed.
    pub release_era: Option<u64>,
}

/// An entry in a founding validator map.
#[verifier::ext_equal]
pub ghost struct BidModel {
    pub bonding_purse: Seq<char>,
    pub staked_amount: U512,
    pub delegation_rate: u64,
    pub release_era: Option<u64>,
}

impl View for Bid {
    type V = BidModel;

    open spec fn view(&self) -> BidModel {
        BidModel {
            bonding_purse: self.bonding_purse@,
            staked_amount: self.staked_amount,
            delegation_rate: self.delegation_rate,
            release_era: self.release_era,
        }
    }
}

/// What is told of a bid.
pub open spec fn told(bid: AuctionBid) -> BidModel {
    BidModel {
        bonding_purse: bid.bonding_purse.formatted(),
        staked_amount: bid.staked_amount,
        delegation_rate: bid.delegation_rate,
        release_era: bid.release_era,
    }
}

impl Bid {
    /// Returns what is told of a bid.
    pub fn from_auction_bid(bid: &AuctionBid) -> (r: Bid)
        ensures
            r@ == told(*bid),
    {
        Bid {
            bonding_purse: bid.bonding_purse.to_formatted_string(),
            staked_amount: bid.staked_amount,
            delegation_rate: bid.delegation_rate,
            release_era: bid.release_era,
        }
    }
}

/// The bids by their bidders.
pub open spec fn bids_view(bids: Seq<(PublicKey, Bid)>) -> Seq<(PublicKey, BidModel)> {
    bids.map_values(|e: (PublicKey, Bid)| (e.0, e.1@))
}

/// What is told of all bids.
pub open spec fn all_told(bids: Seq<(PublicKey, AuctionBid)>) -> Seq<(PublicKey, BidModel)> {
    bids.map_values(|e: (PublicKey, AuctionBid)| (e.0, told(e.1)))
}

/// Data structure summarizing auction contract data.
pub struct AuctionState {
    /// Global state hash
    pub state_root_hash: Digest,
    /// Block height
    pub block_height: u64,
    /// Era validators
    pub era_validators: Option<EraValidators>,
    /// All bids.
    pub bids: Option<Bids>,
}

/// Returns what is told of all bids.
fn tell_all(bids: &AuctionBids) -> (r: Bids)
    requires
        bids.wf(),
    ensures
        r.wf(),
        bids_view(r@) == all_told(bids@),
{
    let ghost all = all_told(bids@);
    let mut r: Bids = OrderedMap::new();
    let mut i: usize = 0;
    assert(bids_view(r@) =~= all.take(0));
    while i < bids.len()
        invariant
            i <= bids@.len(),
            bids.wf(),
            all == all_told(bids@),
            r.wf(),
            r@.len() == i,
            forall|j: int| 0 <= j < i ==> (#[trigger] r@[j]).0 == bids@[j].0,
            bids_view(r@) == all.take(i as int),
        decreases bids@.len() - i,
    {
        proof {
            if i > 0 {
                assert(r@[i - 1].0 == bids@[i - 1].0);
                assert(bids@[i - 1].0.before(bids@[i as int].0));
            }
        }
        let key = bids.key_at(i);
        r.push(key, Bid::from_auction_bid(bids.value_at(i)));
        assert(bids_view(r@) =~= all.take(i + 1));
        i += 1;
    }
    assert(bids_view(r@) =~= all);
    r
}

impl AuctionState {
    /// Create new instance of `AuctionState`
    pub fn new(
        state_root_hash: Digest,
        block_height: u64,
        bids: Option<&AuctionBids>,
        era_validators: Option<EraValidators>,
    ) -> (r: AuctionState)
        requires
            bids matches Some(bids) ==> bids.wf(),
        ensures
            r.state_root_hash == state_root_hash,
            r.block_height == block_height,
            r.era_validators == era_validators,
            match bids {
                Some(bids) => {
                    &&& r.bids matches Some(told_bids)
                    &&& told_bids.wf()
                    &&& bids_view(told_bids@) == all_told(bids@)
                },
                None => r.bids is None,
            },
    {
        let bids = match bids {
            Some(bids) => Some(tell_all(bids)),
            None => None,
        };
        AuctionState { state_root_hash, block_height, bids, era_validators }
    }

    /// Returns an example of the validators of an era, of whom one is given.
    pub fn example_era_validators(public_key: PublicKey) -> (r: EraValidators)
        ensures
            r.wf(),
            r@.len() == 1,
            r@[0].0 == 10,
            r@[0].1.wf(),
            r@[0].1@.len() == 1,
            r@[0].1@[0].0 == public_key,
            r@[0].1@[0].1@ == 10,
    {
        let mut validator_weights: ValidatorWeights = OrderedMap::new();
        validator_weights.push(public_key, U512::from_u64(10));
        let mut era_validators: EraValidators = OrderedMap::new();
        era_validators.push(10, validator_weights);
        era_validators
    }

    /// Returns an example of bids, made by the given bidder.
    pub fn example_bids(public_key: PublicKey) -> (r: Bids)
        ensures
            r.wf(),
            r@.len() == 1,
            r@[0].0 == public_key,
            r@[0].1.bonding_purse@
                == "uref-09480c3248ef76b603d386f3f4f8a5f87f597d4eaffd475433f861af187ab5db-007"@,
            r@[0].1.staked_amount@ == 10,
            r@[0].1.delegation_rate == 10,
            r@[0].1.release_era == Some(43u64),
    {
        let bid = Bid {
            bonding_purse: String::from_str(
                "uref-09480c3248ef76b603d386f3f4f8a5f87f597d4eaffd475433f861af187ab5db-007",
            ),
            staked_amount: U512::from_u64(10),
            delegation_rate: 10,
            release_era: Some(43),
        };
        let mut bids: Bids = OrderedMap::new();
        bids.push(public_key, bid);
        bids
    }

    /// Returns an example, with the given state and bidder.
    pub fn doc_example(state_root_hash: Digest, public_key: PublicKey) -> (r: AuctionState)
        ensures
            r.state_root_hash == state_root_hash,
            r.block_height == 10,
            r.era_validators is Some,
            r.era_validators->0@.len() == 1,
            r.era_validators->0@[0].0 == 10,
            r.era_validators->0@[0].1@.len() == 1,
            r.era_validators->0@[0].1@[0].0 == public_key,
            r.era_validators->0@[0].1@[0].1@ == 10,
            r.bids is Some,
            r.bids->0@.len() == 1,
            r.bids->0@[0].0 == public_key,
            r.bids->0@[0].1.bonding_purse@
                == "uref-09480c3248ef76b603d386f3f4f8a5f87f597d4eaffd475433f861af187ab5db-007"@,
            r.bids->0@[0].1.staked_amount@ == 10,
            r.bids->0@[0].1.delegation_rate == 10,
            r.bids->0@[0].1.release_era == Some(43u64),
    {
        AuctionState {
            state_root_hash,
            block_height: 10,
            era_validators: Some(AuctionState::example_era_validators(public_key)),
            bids: Some(AuctionState::example_bids(public_key)),
        }
    }
}

/// Each bid is told of under its own key, with its purse written out and everything else as it is.
pub proof fn law_every_bid_is_told(bids: Seq<(PublicKey, AuctionBid)>, i: int)
    requires
        0 <= i < bids.len(),
    ensures
        all_told(bids).len() == bids.len(),
        all_told(bids)[i].0 == bids[i].0,
        all_told(bids)[i].1.bonding_purse == bids[i].1.bonding_purse.formatted(),
        all_told(bids)[i].1.staked_amount == bids[i].1.staked_amount,
        all_told(bids)[i].1.delegation_rate == bids[i].1.delegation_rate,
        all_told(bids)[i].1.release_era == bids[i].1.release_era,
{
}

} // verus!
