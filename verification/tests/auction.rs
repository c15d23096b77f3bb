//! Tests of the auction.

use casper_node::auction::detail::{
    create_unbonding_purse, get_auction_delay, get_bids, get_era_end_timestamp_millis, get_era_id,
    get_seigniorage_recipients_snapshot, get_unbonding_purses, get_validator_slots,
    process_unbond_requests, reinvest_delegator_rewards, reinvest_validator_reward, set_bids,
    set_era_end_timestamp_millis, set_era_id, set_seigniorage_recipients_snapshot,
    set_unbonding_purses, U512Ratio,
};
use casper_node::auction::memory::InMemoryProvider;
use casper_node::auction::{
    AuctionProvider, AuctionValue, Bid, Bids, Delegator, Error, SeigniorageAllocation,
    UnbondingPurse, UnbondingPurses,
};
use casper_node::auction_state::{AuctionState, Bid as JsonBid};
use casper_node::hash::Digest;
use casper_node::keys::{AccountHash, Key, PublicKey, URef};
use casper_node::ordered::OrderedMap;
use casper_node::uint::U512;
use std::rc::Rc;

fn key(n: u8) -> PublicKey {
    PublicKey::Ed25519([n; 32])
}

fn purse(n: u8) -> URef {
    URef {
        addr: [n; 32],
        access_rights: 7,
    }
}

fn amount(n: u64) -> U512 {
    U512::from_u64(n)
}

const NAMES: [&str; 8] = [
    "bids",
    "unbonding_purses",
    "era_id",
    "era_end_timestamp_millis",
    "seigniorage_recipients_snapshot",
    "validator_slots",
    "auction_delay",
    "unbonding_delay",
];

/// Surroundings with a reference for each name.
fn provider(caller: u8) -> InMemoryProvider {
    let mut provider = InMemoryProvider::new(AccountHash(Digest([caller; 32])));
    for (i, name) in NAMES.iter().enumerate() {
        provider.put_key(name.to_string(), Key::URef(purse(100 + i as u8)));
    }
    provider
}

fn write(provider: &mut InMemoryProvider, name: &str, value: AuctionValue) {
    match provider.get_key(name) {
        Some(Key::URef(uref)) => assert_eq!(provider.write(uref, value), Ok(())),
        _ => panic!("the name is known"),
    }
}

fn unbonding(n: u8, era_of_creation: u64, motes: u64) -> UnbondingPurse {
    UnbondingPurse {
        bonding_purse: purse(n),
        validator_public_key: key(n),
        unbonder_public_key: key(50 + n),
        era_of_creation,
        amount: amount(motes),
    }
}

#[test]
fn values_are_found_as_stored() {
    let mut provider = provider(0);
    assert_eq!(get_era_id(&provider), Err(Error::MissingValue));
    assert_eq!(set_era_id(&mut provider, 12), Ok(()));
    assert_eq!(set_era_end_timestamp_millis(&mut provider, 34), Ok(()));
    assert_eq!(get_era_id(&provider), Ok(12));
    assert_eq!(get_era_end_timestamp_millis(&provider), Ok(34));
    write(&mut provider, "validator_slots", AuctionValue::U32(5));
    assert_eq!(get_validator_slots(&provider), Ok(5));
    write(&mut provider, "auction_delay", AuctionValue::U64(3));
    assert_eq!(get_auction_delay(&provider), Ok(3));
    let bids: Rc<Bids> = Rc::new(OrderedMap::new());
    assert_eq!(set_bids(&mut provider, bids.clone()), Ok(()));
    match get_bids(&provider) {
        Ok(found) => assert!(Rc::ptr_eq(&found, &bids)),
        Err(_) => panic!("the bids are there"),
    }
    let snapshot = Rc::new(OrderedMap::new());
    assert_eq!(
        set_seigniorage_recipients_snapshot(&mut provider, snapshot),
        Ok(())
    );
    assert!(get_seigniorage_recipients_snapshot(&provider).is_ok());
}

#[test]
fn missing_and_wrong_values_are_errors() {
    let nothing = InMemoryProvider::new(AccountHash(Digest([0; 32])));
    assert_eq!(get_era_id(&nothing), Err(Error::MissingKey));
    let mut provider = InMemoryProvider::new(AccountHash(Digest([0; 32])));
    provider.put_key("era_id".to_string(), Key::Hash([1; 32]));
    assert_eq!(get_era_id(&provider), Err(Error::InvalidKeyVariant));
    assert_eq!(set_era_id(&mut provider, 1), Err(Error::InvalidKeyVariant));
    provider.put_key("era_id".to_string(), Key::URef(purse(1)));
    write(&mut provider, "era_id", AuctionValue::U32(5));
    assert_eq!(get_era_id(&provider), Err(Error::Storage));
}

fn unbonding_provider(caller: u8) -> InMemoryProvider {
    let mut provider = provider(caller);
    let mut purses: UnbondingPurses = OrderedMap::new();
    purses.insert(key(1), vec![unbonding(1, 1, 10), unbonding(1, 5, 20)]);
    purses.insert(key(2), vec![unbonding(2, 2, 30)]);
    assert_eq!(set_unbonding_purses(&mut provider, Rc::new(purses)), Ok(()));
    write(&mut provider, "unbonding_delay", AuctionValue::U64(14));
    provider.set_balance(purse(1), amount(100));
    provider.set_balance(purse(2), amount(100));
    provider
}

#[test]
fn due_purses_are_paid_out() {
    let mut provider = unbonding_provider(0);
    assert_eq!(set_era_id(&mut provider, 16), Ok(()));
    assert_eq!(process_unbond_requests(&mut provider), Ok(()));
    let paid: Vec<(URef, AccountHash, U512)> = provider.transfers().clone();
    assert_eq!(paid.len(), 2);
    assert_eq!(paid[0].0, purse(1));
    assert_eq!(paid[0].1, AccountHash::from_public_key(&key(51)));
    assert_eq!(paid[0].2, amount(10));
    assert_eq!(paid[1].0, purse(2));
    match get_unbonding_purses(&provider) {
        Ok(left) => {
            // Only the purse that has to wait is left, and no empty entry.
            assert_eq!(left.len(), 1);
            assert_eq!(left.key_at(0), key(1));
            assert_eq!(left.value_at(0).len(), 1);
            assert_eq!(left.value_at(0)[0].era_of_creation, 5);
        }
        Err(_) => panic!("the purses are there"),
    }
}

#[test]
fn only_the_system_processes_unbonds() {
    let mut provider = unbonding_provider(9);
    assert_eq!(set_era_id(&mut provider, 16), Ok(()));
    assert_eq!(
        process_unbond_requests(&mut provider),
        Err(Error::InvalidCaller)
    );
    assert!(provider.transfers().is_empty());
}

#[test]
fn failed_transfer_is_told() {
    let mut provider = unbonding_provider(0);
    assert_eq!(set_era_id(&mut provider, 16), Ok(()));
    provider.set_balance(purse(2), amount(29));
    assert_eq!(
        process_unbond_requests(&mut provider),
        Err(Error::TransferToUnbondingPurse)
    );
    assert_eq!(provider.transfers().len(), 1);
}

#[test]
fn unbonding_purse_is_created() {
    let mut provider = unbonding_provider(0);
    assert_eq!(set_era_id(&mut provider, 7), Ok(()));
    assert_eq!(
        create_unbonding_purse(&mut provider, key(1), key(3), purse(1), amount(101)),
        Err(Error::UnbondTooLarge)
    );
    assert_eq!(
        create_unbonding_purse(&mut provider, key(1), key(3), purse(9), amount(1)),
        Err(Error::UnbondTooLarge)
    );
    assert_eq!(
        create_unbonding_purse(&mut provider, key(1), key(3), purse(1), amount(40)),
        Ok(amount(60))
    );
    assert_eq!(
        create_unbonding_purse(&mut provider, key(4), key(4), purse(2), amount(100)),
        Ok(amount(0))
    );
    match get_unbonding_purses(&provider) {
        Ok(purses) => {
            assert_eq!(purses.len(), 3);
            let list = match purses.get(&key(1)) {
                Some(list) => list,
                None => panic!("the validator has purses"),
            };
            assert_eq!(list.len(), 3);
            assert_eq!(list[2].era_of_creation, 7);
            assert_eq!(list[2].amount, amount(40));
            assert_eq!(list[2].unbonder_public_key, key(3));
            assert!(purses.contains_key(&key(4)));
        }
        Err(_) => panic!("the purses are there"),
    }
}

fn bid(staked: U512) -> Bid {
    let mut delegators = OrderedMap::new();
    for n in 10..12u8 {
        delegators.insert(
            key(n),
            Delegator {
                staked_amount: amount(100),
                bonding_purse: purse(n),
                delegatee: key(1),
            },
        );
    }
    Bid {
        bonding_purse: purse(1),
        staked_amount: staked,
        delegation_rate: 5,
        release_era: Some(43),
        delegators,
    }
}

fn reward(n: u8, numer: u64, denom: u64) -> (PublicKey, U512Ratio) {
    (
        key(n),
        U512Ratio {
            numer: amount(numer),
            denom: amount(denom),
        },
    )
}

#[test]
fn delegator_rewards_are_reinvested() {
    let mut bids: Bids = OrderedMap::new();
    bids.insert(key(1), bid(amount(1_000)));
    let mut allocations = vec![];
    // The reward for a stranger is passed over.
    let rewards = vec![reward(10, 7, 2), reward(99, 5, 1), reward(11, 10, 5)];
    let payouts = reinvest_delegator_rewards(&mut bids, &mut allocations, key(1), &rewards);
    assert_eq!(
        payouts,
        Ok(vec![(amount(3), purse(10)), (amount(2), purse(11))])
    );
    assert_eq!(allocations.len(), 2);
    assert!(matches!(
        allocations[0],
        SeigniorageAllocation::Delegator { amount: a, .. } if a == amount(3)
    ));
    match bids.get(&key(1)) {
        Some(bid) => {
            assert_eq!(bid.delegators.value_at(0).staked_amount, amount(103));
            assert_eq!(bid.delegators.value_at(1).staked_amount, amount(102));
            assert_eq!(bid.staked_amount, amount(1_000));
        }
        None => panic!("the bid is there"),
    }
    // A slashed validator has no delegators to reward.
    let payouts = reinvest_delegator_rewards(&mut bids, &mut allocations, key(2), &rewards);
    assert_eq!(payouts, Ok(vec![]));
    assert_eq!(allocations.len(), 2);
}

#[test]
fn validator_reward_is_reinvested() {
    let max = U512 {
        d0: u128::MAX,
        d1: u128::MAX,
        d2: u128::MAX,
        d3: u128::MAX,
    };
    let mut bids: Bids = OrderedMap::new();
    bids.insert(key(1), bid(amount(1_000)));
    bids.insert(key(2), bid(max));
    let mut allocations = vec![];
    assert_eq!(
        reinvest_validator_reward(&mut bids, &mut allocations, key(1), amount(5)),
        Ok(Some(purse(1)))
    );
    assert_eq!(bids.value_at(0).staked_amount, amount(1_005));
    assert_eq!(allocations.len(), 1);
    assert_eq!(
        reinvest_validator_reward(&mut bids, &mut allocations, key(2), amount(1)),
        Err(Error::InvalidAmount)
    );
    assert_eq!(
        reinvest_validator_reward(&mut bids, &mut allocations, key(3), amount(1)),
        Ok(None)
    );
    assert_eq!(allocations.len(), 1);
}

#[test]
fn bids_are_told_to_clients() {
    let told = JsonBid::from_auction_bid(&bid(amount(12)));
    assert_eq!(
        told.bonding_purse,
        "uref-0101010101010101010101010101010101010101010101010101010101010101-007"
    );
    assert_eq!(told.staked_amount, amount(12));
    assert_eq!(told.delegation_rate, 5);
    assert_eq!(told.release_era, Some(43));
    let mut bids: Bids = OrderedMap::new();
    bids.insert(key(1), bid(amount(12)));
    let state = AuctionState::new(Digest([3; 32]), 10, Some(&bids), None);
    assert_eq!(state.block_height, 10);
    assert!(state.era_validators.is_none());
    assert_eq!(state.bids.map(|bids| bids.len()), Some(1));
    let state = AuctionState::new(Digest([3; 32]), 10, None, None);
    assert!(state.bids.is_none());
}

#[test]
fn example_state() {
    let state = AuctionState::doc_example(Digest([3; 32]), key(1));
    assert_eq!(state.block_height, 10);
    match state.era_validators {
        Some(eras) => {
            assert_eq!(eras.key_at(0), 10);
            assert_eq!(*eras.value_at(0).value_at(0), amount(10));
        }
        None => panic!("there are validators"),
    }
    match state.bids {
        Some(bids) => {
            let bid = bids.value_at(0);
            assert_eq!(
                bid.bonding_purse,
                "uref-09480c3248ef76b603d386f3f4f8a5f87f597d4eaffd475433f861af187ab5db-007"
            );
            assert_eq!(bid.staked_amount, amount(10));
            assert_eq!(bid.delegation_rate, 10);
            assert_eq!(bid.release_era, Some(43));
        }
        None => panic!("there are bids"),
    }
}
