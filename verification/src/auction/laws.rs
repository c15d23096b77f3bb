//! When purses are paid out, and what becomes of stakes.

use crate::auction::{
    AuctionProvider, AuctionValue, Bid, Bids, Delegator, Error, SeigniorageAllocation, UnbondingPurse, UnbondingPurses,
};
use crate::auction::detail::U512Ratio;
use crate::keys::{AccountHash, Key, PublicKey, URef};
use crate::uint::U512;
use std::rc::Rc;
use vstd::prelude::*;

verus! {

/// All purses of a map, in order.
proof fn lemma_flat(purses: Seq<(PublicKey, Vec<UnbondingPurse>)>)
    ensures
        crate::auction::detail::all_purses(crate::auction::detail::purses_view(purses)) == purses.map_values(
            |e: (PublicKey, Vec<UnbondingPurse>)| e.1@,
        ).flatten(),
    decreases purses.len(),
{
    let lists = purses.map_values(|e: (PublicKey, Vec<UnbondingPurse>)| e.1@);
    if purses.len() > 0 {
        lemma_flat(purses.drop_last());
        let front = purses.drop_last().map_values(|e: (PublicKey, Vec<UnbondingPurse>)| e.1@);
        assert(lists =~= front.push(purses.last().1@));
        front.lemma_flatten_push(purses.last().1@);
        assert(crate::auction::detail::purses_view(purses).drop_last() =~= crate::auction::detail::purses_view(purses.drop_last()));
    } else {
        assert(lists =~= Seq::<Seq<UnbondingPurse>>::empty());
        assert(crate::auction::detail::purses_view(purses) =~= Seq::<(PublicKey, Seq<UnbondingPurse>)>::empty());
    }
}

/// The states that purses are paid through, one after another.
proof fn lemma_states<P: AuctionProvider>(s: P::State, purses: Seq<UnbondingPurse>, after: P::State) -> (states: Seq<P::State>)
    requires
        crate::auction::detail::paid::<P>(s, purses) == Some(after),
    ensures
        states.len() == purses.len() + 1,
        states[0] == s,
        states.last() == after,
        forall|i: int|
            0 <= i < purses.len() ==> P::transferred(
                states[i],
                (#[trigger] purses[i]).bonding_purse,
                AccountHash::account_of(purses[i].unbonder_public_key),
                purses[i].amount,
            ) == Some(states[i + 1]),
    decreases purses.len(),
{
    if purses.len() == 0 {
        seq![s]
    } else {
        let front = purses.drop_last();
        let before = crate::auction::detail::paid::<P>(s, front)->Some_0;
        let states = lemma_states::<P>(s, front, before);
        let all = states.push(after);
        assert forall|i: int| 0 <= i < purses.len() implies P::transferred(
            all[i],
            (#[trigger] purses[i]).bonding_purse,
            AccountHash::account_of(purses[i].unbonder_public_key),
            purses[i].amount,
        ) == Some(all[i + 1]) by {
            if i < front.len() {
                assert(front[i] == purses[i]);
            }
        }
        all
    }
}

/// A purse is paid out exactly if the current era is at least the era in which it was made plus the
/// unbonding delay. What is due is paid one purse after another, in the order in which it is stored, each
/// from its bonding purse to the account of its unbonder, with its amount; should one transfer fail, the
/// ones before stay made and what is stored stays as it was. What is left, and nothing else, is stored
/// anew under the same name.
pub proof fn law_paid_when_the_delay_is_over<P: AuctionProvider>(
    s: P::State,
    purses_at: URef,
    purses: Rc<UnbondingPurses>,
    era_at: URef,
    current_era: u64,
    delay_at: URef,
    unbonding_delay: u64,
    after: P::State,
    r: Result<(), Error>,
) -> (out: (Seq<P::State>, Rc<UnbondingPurses>))
    requires
        P::caller_in(s).0.0@ == Seq::new(32, |i: int| 0u8),
        P::key_in(s, "unbonding_purses"@) == Some(Key::URef(purses_at)),
        P::value_in(s, purses_at) == Ok::<Option<AuctionValue>, Error>(Some(AuctionValue::UnbondingPurses(purses))),
        P::key_in(s, "era_id"@) == Some(Key::URef(era_at)),
        P::value_in(s, era_at) == Ok::<Option<AuctionValue>, Error>(Some(AuctionValue::U64(current_era))),
        P::key_in(s, "unbonding_delay"@) == Some(Key::URef(delay_at)),
        P::value_in(s, delay_at) == Ok::<Option<AuctionValue>, Error>(Some(AuctionValue::U64(unbonding_delay))),
        crate::auction::detail::unbonds_processed::<P>(s, after, r),
    ensures
        ({
            let states = out.0;
            let left = out.1;
            let to_pay = purses@.map_values(|e: (PublicKey, Vec<UnbondingPurse>)| e.1@).flatten().filter(
                |p: UnbondingPurse| current_era >= p.era_of_creation + unbonding_delay,
            );
            &&& 1 <= states.len() <= to_pay.len() + 1
            &&& states[0] == s
            &&& forall|i: int|
                0 <= i < states.len() - 1 ==> P::transferred(
                    states[i],
                    (#[trigger] to_pay[i]).bonding_purse,
                    AccountHash::account_of(to_pay[i].unbonder_public_key),
                    to_pay[i].amount,
                ) == Some(states[i + 1])
            &&& states.len() <= to_pay.len() ==> {
                let p = to_pay[states.len() - 1];
                &&& P::transferred(
                    states.last(),
                    p.bonding_purse,
                    AccountHash::account_of(p.unbonder_public_key),
                    p.amount,
                ) is None
                &&& r == Err::<(), Error>(Error::TransferToUnbondingPurse)
                &&& after == states.last()
            }
            &&& states.len() == to_pay.len() + 1 ==> {
                &&& left@.map_values(|e: (PublicKey, Vec<UnbondingPurse>)| (e.0, e.1@)) == purses@.map_values(
                    |e: (PublicKey, Vec<UnbondingPurse>)|
                        (e.0, e.1@.filter(|p: UnbondingPurse| current_era < p.era_of_creation + unbonding_delay)),
                ).filter(|e: (PublicKey, Seq<UnbondingPurse>)| e.1.len() > 0)
                &&& match P::key_in(states.last(), "unbonding_purses"@) {
                    Some(Key::URef(at)) => match P::written(states.last(), at, AuctionValue::UnbondingPurses(left)) {
                        Ok(t) => r is Ok && after == t,
                        Err(e) => r == Err::<(), Error>(e) && after == states.last(),
                    },
                    Some(_) => r == Err::<(), Error>(Error::InvalidKeyVariant) && after == states.last(),
                    None => r == Err::<(), Error>(Error::MissingKey) && after == states.last(),
                }
            }
        }),
{
    let entries = crate::auction::detail::purses_view(purses@);
    let due = |p: UnbondingPurse| current_era >= p.era_of_creation + unbonding_delay;
    let waits = |p: UnbondingPurse| current_era < p.era_of_creation + unbonding_delay;
    lemma_flat(purses@);
    assert(crate::auction::detail::due(current_era, unbonding_delay) =~= due);
    assert(crate::auction::detail::waiting(current_era, unbonding_delay) =~= waits);
    let to_pay = crate::auction::detail::all_purses(entries).filter(due);
    match crate::auction::detail::paid::<P>(s, to_pay) {
        None => {
            let n = choose|n: int|
                0 <= n < to_pay.len() && crate::auction::detail::paid::<P>(s, #[trigger] to_pay.take(n)) == Some(after)
                    && crate::auction::detail::paid_one::<P>(after, to_pay[n]) is None;
            let states = lemma_states::<P>(s, to_pay.take(n), after);
            assert forall|i: int| 0 <= i < states.len() - 1 implies P::transferred(
                states[i],
                (#[trigger] to_pay[i]).bonding_purse,
                AccountHash::account_of(to_pay[i].unbonder_public_key),
                to_pay[i].amount,
            ) == Some(states[i + 1]) by {
                assert(to_pay.take(n)[i] == to_pay[i]);
            }
            (states, purses)
        },
        Some(paid) => {
            let states = lemma_states::<P>(s, to_pay, paid);
            let left = choose|left: Rc<UnbondingPurses>|
                crate::auction::detail::purses_view(left@) == crate::auction::detail::left_over(
                    entries,
                    current_era,
                    unbonding_delay,
                ) && #[trigger] crate::auction::detail::write_done::<P>(
                    paid,
                    crate::auction::detail::with_named::<P>(
                        paid,
                        "unbonding_purses"@,
                        AuctionValue::UnbondingPurses(left),
                    ),
                    after,
                    r,
                );
            assert(entries.map_values(
                |e: (PublicKey, Seq<UnbondingPurse>)| crate::auction::detail::kept_entry(e, current_era, unbonding_delay),
            ) =~= purses@.map_values(|e: (PublicKey, Vec<UnbondingPurse>)| (e.0, e.1@.filter(waits))));
            assert(crate::auction::detail::not_empty() =~= (|e: (PublicKey, Seq<UnbondingPurse>)| e.1.len() > 0));
            assert(left@.map_values(|e: (PublicKey, Vec<UnbondingPurse>)| (e.0, e.1@)) == crate::auction::detail::purses_view(
                left@,
            ));
            (states, left)
        },
    }
}

/// While the current era is before the era of creation plus the delay for every stored purse, nothing is
/// transferred, and what is stored anew is what was stored.
pub proof fn law_nothing_paid_before_the_delay<P: AuctionProvider>(
    s: P::State,
    purses_at: URef,
    purses: Rc<UnbondingPurses>,
    era_at: URef,
    current_era: u64,
    delay_at: URef,
    unbonding_delay: u64,
    after: P::State,
    r: Result<(), Error>,
) -> (left: Rc<UnbondingPurses>)
    requires
        P::caller_in(s).0.0@ == Seq::new(32, |i: int| 0u8),
        P::key_in(s, "unbonding_purses"@) == Some(Key::URef(purses_at)),
        P::value_in(s, purses_at) == Ok::<Option<AuctionValue>, Error>(Some(AuctionValue::UnbondingPurses(purses))),
        P::key_in(s, "era_id"@) == Some(Key::URef(era_at)),
        P::value_in(s, era_at) == Ok::<Option<AuctionValue>, Error>(Some(AuctionValue::U64(current_era))),
        P::key_in(s, "unbonding_delay"@) == Some(Key::URef(delay_at)),
        P::value_in(s, delay_at) == Ok::<Option<AuctionValue>, Error>(Some(AuctionValue::U64(unbonding_delay))),
        crate::auction::detail::unbonds_processed::<P>(s, after, r),
        forall|i: int| 0 <= i < purses@.len() ==> (#[trigger] purses@[i]).1@.len() > 0,
        forall|i: int, j: int|
            0 <= i < purses@.len() && 0 <= j < purses@[i].1@.len() ==> current_era < (#[trigger] purses@[i].1@[j]).era_of_creation
                + unbonding_delay,
    ensures
        left@.map_values(|e: (PublicKey, Vec<UnbondingPurse>)| (e.0, e.1@)) == purses@.map_values(
            |e: (PublicKey, Vec<UnbondingPurse>)| (e.0, e.1@),
        ),
        match P::written(s, purses_at, AuctionValue::UnbondingPurses(left)) {
            Ok(t) => r is Ok && after == t,
            Err(e) => r == Err::<(), Error>(e) && after == s,
        },
{
    let (states, left) = law_paid_when_the_delay_is_over::<P>(
        s,
        purses_at,
        purses,
        era_at,
        current_era,
        delay_at,
        unbonding_delay,
        after,
        r,
    );
    let due = |p: UnbondingPurse| current_era >= p.era_of_creation + unbonding_delay;
    let waits = |p: UnbondingPurse| current_era < p.era_of_creation + unbonding_delay;
    let all = purses@.map_values(|e: (PublicKey, Vec<UnbondingPurse>)| e.1@).flatten();
    lemma_flat(purses@);
    assert forall|k: int| 0 <= k < all.len() implies waits(#[trigger] all[k]) by {
        let (i, j) = lemma_found(purses@, k);
        assert(purses@[i].1@[j] == all[k]);
    }
    lemma_filter_none(all, due);
    let kept = purses@.map_values(|e: (PublicKey, Vec<UnbondingPurse>)| (e.0, e.1@.filter(waits)));
    let same = purses@.map_values(|e: (PublicKey, Vec<UnbondingPurse>)| (e.0, e.1@));
    assert forall|i: int| 0 <= i < purses@.len() implies (#[trigger] purses@[i]).1@.filter(waits) == purses@[i].1@ by {
        lemma_filter_all(purses@[i].1@, waits);
    }
    assert(kept =~= same);
    lemma_filter_all(same, |e: (PublicKey, Seq<UnbondingPurse>)| e.1.len() > 0);
    left
}

/// Every purse in the flat list stands in one of the lists.
proof fn lemma_found(purses: Seq<(PublicKey, Vec<UnbondingPurse>)>, k: int) -> (at: (int, int))
    requires
        0 <= k < crate::auction::detail::all_purses(crate::auction::detail::purses_view(purses)).len(),
    ensures
        0 <= at.0 < purses.len(),
        0 <= at.1 < purses[at.0].1@.len(),
        purses[at.0].1@[at.1] == crate::auction::detail::all_purses(crate::auction::detail::purses_view(purses))[k],
    decreases purses.len(),
{
    let view = crate::auction::detail::purses_view(purses);
    assert(view.drop_last() =~= crate::auction::detail::purses_view(purses.drop_last()));
    let front = crate::auction::detail::all_purses(view.drop_last());
    if k < front.len() {
        lemma_found(purses.drop_last(), k)
    } else {
        (purses.len() - 1, k - front.len())
    }
}

/// Where a test holds of no element, the filter leaves nothing.
proof fn lemma_filter_none<A>(s: Seq<A>, p: spec_fn(A) -> bool)
    requires
        forall|i: int| 0 <= i < s.len() ==> !p(#[trigger] s[i]),
    ensures
        s.filter(p) == Seq::<A>::empty(),
{
    broadcast use vstd::seq_lib::group_filter_ensures;

    if s.filter(p).len() > 0 {
        let e = s.filter(p)[0];
        assert(s.filter(p).contains(e));
        s.lemma_filter_contains_rev(p, e);
        let i = s.index_of(e);
        assert(!p(s[i]));
    }
    assert(s.filter(p) =~= Seq::<A>::empty());
}

/// Where a test holds of every element, the filter leaves all.
proof fn lemma_filter_all<A>(s: Seq<A>, p: spec_fn(A) -> bool)
    requires
        forall|i: int| 0 <= i < s.len() ==> p(#[trigger] s[i]),
    ensures
        s.filter(p) == s,
    decreases s.len(),
{
    reveal(Seq::filter);
    if s.len() > 0 {
        let front = s.drop_last();
        assert forall|i: int| 0 <= i < front.len() implies p(#[trigger] front[i]) by {
            assert(front[i] == s[i]);
        }
        lemma_filter_all(front, p);
        assert(p(s[s.len() - 1]));
        assert(s =~= front.push(s.last()));
    } else {
        assert(s.filter(p) =~= s);
    }
}

/// Nobody but the system has purses paid out.
pub proof fn law_only_the_system_pays_out<P: AuctionProvider>(s: P::State, after: P::State, r: Result<(), Error>)
    requires
        P::caller_in(s).0.0@ != Seq::new(32, |i: int| 0u8),
        crate::auction::detail::unbonds_processed::<P>(s, after, r),
    ensures
        r == Err::<(), Error>(Error::InvalidCaller),
        after == s,
{
}

/// Unbonding no more than what is in the bonding purse adds one purse, of this amount and the current
/// era, behind those of the same validator, leaves all others, and returns what remains. Unbonding more
/// changes nothing.
pub proof fn law_unbonding_adds_a_purse<P: AuctionProvider>(
    s: P::State,
    purses_at: URef,
    purses: Rc<UnbondingPurses>,
    era_at: URef,
    current_era: u64,
    validator: PublicKey,
    unbonder: PublicKey,
    bonding_purse: URef,
    amount: U512,
    balance: U512,
    other: PublicKey,
    after: P::State,
    r: Result<U512, Error>,
) -> (new: Rc<UnbondingPurses>)
    requires
        purses.wf(),
        other != validator,
        P::balance_in(s, bonding_purse) == Ok::<Option<U512>, Error>(Some(balance)),
        P::key_in(s, "unbonding_purses"@) == Some(Key::URef(purses_at)),
        P::value_in(s, purses_at) == Ok::<Option<AuctionValue>, Error>(Some(AuctionValue::UnbondingPurses(purses))),
        P::key_in(s, "era_id"@) == Some(Key::URef(era_at)),
        P::value_in(s, era_at) == Ok::<Option<AuctionValue>, Error>(Some(AuctionValue::U64(current_era))),
        crate::auction::detail::unbonding_created::<P>(s, validator, unbonder, bonding_purse, amount, after, r),
    ensures
        amount@ > balance@ ==> r == Err::<U512, Error>(Error::UnbondTooLarge) && after == s,
        amount@ <= balance@ ==> {
            let before = purses@.map_values(|e: (PublicKey, Vec<UnbondingPurse>)| (e.0, e.1@));
            let now = new@.map_values(|e: (PublicKey, Vec<UnbondingPurse>)| (e.0, e.1@));
            let list = match crate::ordered::value_of(before, validator) {
                Some(list) => list,
                None => Seq::empty(),
            };
            &&& crate::ordered::value_of(now, validator) matches Some(l) && l.len() == list.len() + 1 && l.drop_last() == list && l.last()
                == (UnbondingPurse {
                bonding_purse,
                validator_public_key: validator,
                unbonder_public_key: unbonder,
                era_of_creation: current_era,
                amount,
            })
            &&& crate::ordered::value_of(now, other) == crate::ordered::value_of(before, other)
            &&& match P::written(s, purses_at, AuctionValue::UnbondingPurses(new)) {
                Ok(t) => after == t && r is Ok && r->Ok_0@ + amount@ == balance@,
                Err(e) => after == s && r == Err::<U512, Error>(e),
            }
        },
{
    let before = crate::auction::detail::purses_view(purses@);
    let purse = UnbondingPurse {
        bonding_purse,
        validator_public_key: validator,
        unbonder_public_key: unbonder,
        era_of_creation: current_era,
        amount,
    };
    if amount@ <= balance@ {
        let list = match crate::ordered::value_of(before, validator) {
            Some(list) => list,
            None => Seq::empty(),
        };
        let new = choose|new_purses: Rc<UnbondingPurses>|
            {
                &&& crate::auction::detail::purses_view(new_purses@) == crate::auction::detail::with_purse(before, validator, purse)
                &&& match #[trigger] crate::auction::detail::with_named::<P>(
                    s,
                    "unbonding_purses"@,
                    AuctionValue::UnbondingPurses(new_purses),
                ) {
                    Ok(s1) => r is Ok && r->Ok_0@ == balance@ - amount@ && after == s1,
                    Err(e) => r == Err::<U512, Error>(e) && after == s,
                }
            };
        assert forall|i: int, j: int| 0 <= i < j < before.len() implies crate::ordered::OrdKey::before(
            (#[trigger] before[i]).0,
            (#[trigger] before[j]).0,
        ) by {
            assert(purses@[i].0 == before[i].0);
            assert(purses@[j].0 == before[j].0);
        }
        assert(crate::ordered::keys_increase(before));
        crate::ordered::lemma_with_entry(before, validator, list.push(purse));
        assert(list.push(purse).drop_last() =~= list);
        assert(new@.map_values(|e: (PublicKey, Vec<UnbondingPurse>)| (e.0, e.1@)) == crate::auction::detail::purses_view(new@));
        assert(purses@.map_values(|e: (PublicKey, Vec<UnbondingPurse>)| (e.0, e.1@)) == before);
        new
    } else {
        purses
    }
}

/// One more reward, of a known delegator, is rounded down; it raises this delegator's stake by that much,
/// and no other's, is noted as this delegator's under the validator, and goes to the delegator's bonding
/// purse. A reward of an unknown delegator changes nothing, and one that is too large stops all that
/// follow.
pub proof fn law_each_reward_is_reinvested(
    m: crate::auction::detail::Rewarding,
    validator: PublicKey,
    rewards: Seq<(PublicKey, U512Ratio)>,
    key: PublicKey,
    reward: U512Ratio,
    other: PublicKey,
)
    requires
        crate::ordered::keys_increase(m.with_rewards(validator, rewards).delegators),
        reward.denom@ > 0,
        other != key,
    ensures
        ({
            let before = m.with_rewards(validator, rewards);
            let after = m.with_rewards(validator, rewards.push((key, reward)));
            match crate::ordered::value_of(before.delegators, key) {
                None => after == before,
                Some(d) => {
                    let share = reward.numer@ / reward.denom@;
                    &&& !before.ok ==> after == before
                    &&& before.ok ==> after.ok == (d.staked_amount@ + share < crate::uint::limit())
                    &&& after.ok ==> {
                        &&& crate::ordered::value_of(after.delegators, key) matches Some(e) && e.staked_amount@ == d.staked_amount@
                            + share && e.bonding_purse == d.bonding_purse && e.delegatee == d.delegatee
                        &&& crate::ordered::value_of(after.delegators, other) == crate::ordered::value_of(
                            before.delegators,
                            other,
                        )
                        &&& after.allocations.len() == before.allocations.len() + 1
                        &&& after.allocations.drop_last() == before.allocations
                        &&& after.allocations.last() matches SeigniorageAllocation::Delegator {
                            delegator_public_key,
                            validator_public_key,
                            amount,
                        } && delegator_public_key == key && validator_public_key == validator && amount@ == share
                        &&& after.payouts.len() == before.payouts.len() + 1
                        &&& after.payouts.drop_last() == before.payouts
                        &&& after.payouts.last().0@ == share
                        &&& after.payouts.last().1 == d.bonding_purse
                    }
                    &&& !after.ok ==> after.delegators == before.delegators && after.payouts == before.payouts && after.allocations
                        == before.allocations
                },
            }
        }),
{
    let before = m.with_rewards(validator, rewards);
    let all = rewards.push((key, reward));
    assert(all.drop_last() =~= rewards);
    assert(all.last() == (key, reward));
    match crate::ordered::value_of(before.delegators, key) {
        None => {},
        Some(d) => {
            let share = reward.numer@ / reward.denom@;
            reward.numer.lemma_bounds();
            assert(0 <= share <= reward.numer@) by (nonlinear_arith)
                requires
                    share == reward.numer@ / reward.denom@,
                    reward.denom@ > 0,
                    reward.numer@ >= 0,
            ;
            U512::lemma_of_number(share);
            d.staked_amount.lemma_bounds();
            if d.staked_amount@ + share < crate::uint::limit() {
                U512::lemma_of_number(d.staked_amount@ + share);
                crate::ordered::lemma_with_entry(
                    before.delegators,
                    key,
                    Delegator { staked_amount: U512::of(d.staked_amount@ + share), ..d },
                );
                let after = m.with_rewards(validator, all);
                if before.ok {
                    assert(after.allocations.drop_last() =~= before.allocations);
                    assert(after.payouts.drop_last() =~= before.payouts);
                }
            }
        },
    }
}

/// A transfer takes its amount from its purse, and from no other, and is noted after all earlier ones; it
/// is not made where the purse does not hold as much.
pub proof fn law_transfers_in_memory(
    s: crate::auction::memory::MemoryModel,
    source: URef,
    target: AccountHash,
    amount: U512,
    other: URef,
)
    requires
        other != source,
    ensures
        ({
            let covered = s.balances.contains_key(source) && s.balances[source]@ >= amount@;
            let outcome = <crate::auction::memory::InMemoryProvider as AuctionProvider>::transferred(s, source, target, amount);
            &&& outcome is Some == covered
            &&& outcome matches Some(after) ==> {
                &&& after.balances.contains_key(source)
                &&& after.balances[source]@ + amount@ == s.balances[source]@
                &&& after.balances.contains_key(other) == s.balances.contains_key(other)
                &&& s.balances.contains_key(other) ==> after.balances[other] == s.balances[other]
                &&& after.transfers.len() == s.transfers.len() + 1
                &&& after.transfers.drop_last() == s.transfers
                &&& after.transfers.last() == (source, target, amount)
                &&& after.caller == s.caller
                &&& after.keys == s.keys
                &&& after.values == s.values
            }
        }),
{
    if s.balances.contains_key(source) && s.balances[source]@ >= amount@ {
        s.balances[source].lemma_bounds();
        amount.lemma_bounds();
        U512::lemma_of_number(s.balances[source]@ - amount@);
        assert(s.transfers.push((source, target, amount)).drop_last() =~= s.transfers);
    }
}

/// The key under a name is the one that was put there last.
pub proof fn law_latest_key(keys: Seq<(Seq<char>, Key)>, name: Seq<char>, i: int)
    requires
        0 <= i < keys.len(),
        keys[i].0 == name,
        forall|j: int| i < j < keys.len() ==> (#[trigger] keys[j]).0 != name,
    ensures
        crate::auction::memory::latest_key(keys, name) == Some(keys[i].1),
    decreases keys.len(),
{
    if i < keys.len() - 1 {
        let front = keys.drop_last();
        assert(keys[keys.len() - 1].0 != name);
        assert forall|j: int| i < j < front.len() implies (#[trigger] front[j]).0 != name by {
            assert(front[j] == keys[j]);
        }
        law_latest_key(front, name, i);
    }
}

/// A validator's reward raises its stake by that amount, and nothing else of any bid, and is noted last;
/// the bonding purse is told. A validator without a bid, or whose stake would be too large, gets nothing,
/// and nothing changes.
pub proof fn law_validator_reward_is_reinvested(
    bids: Seq<(PublicKey, Bid)>,
    allocations: Seq<SeigniorageAllocation>,
    validator: PublicKey,
    amount: U512,
    bids_after: Seq<(PublicKey, Bid)>,
    allocations_after: Seq<SeigniorageAllocation>,
    r: Result<Option<URef>, Error>,
    other: PublicKey,
)
    requires
        crate::ordered::keys_increase(bids),
        other != validator,
        crate::auction::detail::validator_rewarded(bids, allocations, validator, amount, bids_after, allocations_after, r),
    ensures
        match crate::ordered::value_of(bids, validator) {
            None => r == Ok::<Option<URef>, Error>(None) && bids_after == bids && allocations_after == allocations,
            Some(bid) => {
                let fits = bid.staked_amount@ + amount@ < crate::uint::limit();
                &&& !fits ==> r == Err::<Option<URef>, Error>(Error::InvalidAmount) && bids_after == bids && allocations_after
                    == allocations
                &&& fits ==> {
                    &&& r == Ok::<Option<URef>, Error>(Some(bid.bonding_purse))
                    &&& crate::ordered::value_of(bids_after, validator) matches Some(now) && now.staked_amount@ == bid.staked_amount@
                        + amount@ && now.bonding_purse == bid.bonding_purse && now.delegation_rate == bid.delegation_rate
                        && now.release_era == bid.release_era && now.delegators == bid.delegators
                    &&& crate::ordered::value_of(bids_after, other) == crate::ordered::value_of(bids, other)
                    &&& allocations_after.len() == allocations.len() + 1
                    &&& allocations_after.drop_last() == allocations
                    &&& allocations_after.last() == (SeigniorageAllocation::Validator { validator_public_key: validator, amount })
                }
            },
        },
{
    match crate::ordered::value_of(bids, validator) {
        None => {},
        Some(bid) => {
            bid.staked_amount.lemma_bounds();
            amount.lemma_bounds();
            if bid.staked_amount@ + amount@ < crate::uint::limit() {
                U512::lemma_of_number(bid.staked_amount@ + amount@);
                crate::ordered::lemma_with_entry(
                    bids,
                    validator,
                    Bid { staked_amount: U512::of(bid.staked_amount@ + amount@), ..bid },
                );
                assert(allocations_after.drop_last() =~= allocations);
            }
        },
    }
}

/// The delegators' rewards change nothing of the validator's own bid but its delegators, and no other bid.
/// They are paid out exactly if none was too large. A validator without a bid has nothing to reward.
pub proof fn law_delegator_rewards_stay_with_their_validator(
    bids: Seq<(PublicKey, Bid)>,
    allocations: Seq<SeigniorageAllocation>,
    validator: PublicKey,
    rewards: Seq<(PublicKey, U512Ratio)>,
    bids_after: Seq<(PublicKey, Bid)>,
    allocations_after: Seq<SeigniorageAllocation>,
    r: Result<Vec<(U512, URef)>, Error>,
    other: PublicKey,
)
    requires
        crate::ordered::keys_increase(bids),
        other != validator,
        crate::auction::detail::delegators_rewarded(bids, allocations, validator, rewards, bids_after, allocations_after, r),
    ensures
        crate::ordered::value_of(bids_after, other) == crate::ordered::value_of(bids, other),
        match crate::ordered::value_of(bids, validator) {
            None => {
                &&& r matches Ok(payouts) && payouts@.len() == 0
                &&& bids_after == bids
                &&& allocations_after == allocations
            },
            Some(bid) => {
                let start = crate::auction::detail::Rewarding {
                    delegators: bid.delegators@,
                    allocations,
                    payouts: Seq::empty(),
                    ok: true,
                };
                let done = start.with_rewards(validator, rewards);
                &&& crate::ordered::value_of(bids_after, validator) matches Some(now) && now.staked_amount == bid.staked_amount
                    && now.bonding_purse == bid.bonding_purse && now.delegation_rate == bid.delegation_rate && now.release_era
                    == bid.release_era && now.delegators@ == done.delegators
                &&& allocations_after == done.allocations
                &&& r is Ok == done.ok
                &&& r matches Ok(payouts) ==> payouts@ == done.payouts
                &&& r matches Err(e) ==> e == Error::InvalidAmount
            },
        },
{
    match crate::ordered::value_of(bids, validator) {
        None => {},
        Some(bid) => {
            let start = crate::auction::detail::Rewarding {
                delegators: bid.delegators@,
                allocations,
                payouts: Seq::empty(),
                ok: true,
            };
            let done = start.with_rewards(validator, rewards);
            let after = choose|after: Bid|
                crate::auction::detail::with_delegators(bid, done.delegators, after) && bids_after
                    == #[trigger] crate::ordered::with_entry(bids, validator, after);
            crate::ordered::lemma_with_entry(bids, validator, after);
        },
    }
}

/// A named value is read from the reference under its name. What is in the way is told: there is no such
/// name, it names no reference, the reference cannot be read, or nothing is there. A value of another kind
/// than expected cannot be used.
pub proof fn law_named_values<P: AuctionProvider>(s: P::State, name: Seq<char>, at: URef, value: AuctionValue, e: Error, n: u64)
    ensures
        P::key_in(s, name) is None ==> crate::auction::detail::value_named::<P>(s, name) == Err::<AuctionValue, Error>(
            Error::MissingKey,
        ),
        (P::key_in(s, name) is Some && !(P::key_in(s, name)->0 is URef)) ==> crate::auction::detail::value_named::<P>(s, name) == Err::<
            AuctionValue,
            Error,
        >(Error::InvalidKeyVariant),
        P::key_in(s, name) == Some(Key::URef(at)) ==> {
            &&& P::value_in(s, at) == Ok::<Option<AuctionValue>, Error>(Some(value)) ==> crate::auction::detail::value_named::<P>(s, name)
                == Ok::<AuctionValue, Error>(value)
            &&& P::value_in(s, at) == Ok::<Option<AuctionValue>, Error>(None) ==> crate::auction::detail::value_named::<P>(s, name)
                == Err::<AuctionValue, Error>(Error::MissingValue)
            &&& P::value_in(s, at) == Err::<Option<AuctionValue>, Error>(e) ==> crate::auction::detail::value_named::<P>(s, name) == Err::<
                AuctionValue,
                Error,
            >(e)
            &&& crate::auction::detail::with_named::<P>(s, name, value) == P::written(s, at, value)
        },
        crate::auction::detail::as_u64(Ok(AuctionValue::U64(n))) == Ok::<u64, Error>(n),
        !(value is U64) ==> crate::auction::detail::as_u64(Ok(value)) == Err::<u64, Error>(Error::Storage),
        !(value is U32) ==> crate::auction::detail::as_u32(Ok(value)) == Err::<u32, Error>(Error::Storage),
        value matches AuctionValue::U32(k) ==> crate::auction::detail::as_u32(Ok(value)) == Ok::<u32, Error>(k),
        value matches AuctionValue::Bids(b) ==> crate::auction::detail::as_bids(Ok(value)) == Ok::<Rc<Bids>, Error>(b),
        !(value is Bids) ==> crate::auction::detail::as_bids(Ok(value)) == Err::<Rc<Bids>, Error>(Error::Storage),
        value matches AuctionValue::UnbondingPurses(p) ==> crate::auction::detail::as_unbonding_purses(Ok(value)) == Ok::<
            Rc<UnbondingPurses>,
            Error,
        >(p),
        !(value is UnbondingPurses) ==> crate::auction::detail::as_unbonding_purses(Ok(value)) == Err::<Rc<UnbondingPurses>, Error>(
            Error::Storage,
        ),
        crate::auction::detail::as_u64(Err(e)) == Err::<u64, Error>(e),
        crate::auction::detail::as_bids(Err(e)) == Err::<Rc<Bids>, Error>(e),
        crate::auction::detail::as_unbonding_purses(Err(e)) == Err::<Rc<UnbondingPurses>, Error>(e),
{
}

/// Without the purses, the era or the delay nothing is paid out: the first of them that cannot be had
/// tells why, and nothing changes.
pub proof fn law_nothing_paid_without_inputs<P: AuctionProvider>(s: P::State, after: P::State, r: Result<(), Error>)
    requires
        P::caller_in(s).0.0@ == Seq::new(32, |i: int| 0u8),
        crate::auction::detail::unbonds_processed::<P>(s, after, r),
    ensures
        P::key_in(s, "unbonding_purses"@) is None || P::key_in(s, "era_id"@) is None || P::key_in(s, "unbonding_delay"@) is None
            ==> r is Err && after == s,
        P::key_in(s, "unbonding_purses"@) is None ==> r == Err::<(), Error>(Error::MissingKey),
{
}

/// An unbonding for which the balance, the purses or the era cannot be had fails with the reason, and a
/// purse without a balance has nothing to unbond; nothing changes.
pub proof fn law_unbonding_needs_its_inputs<P: AuctionProvider>(
    s: P::State,
    validator: PublicKey,
    unbonder: PublicKey,
    bonding_purse: URef,
    amount: U512,
    after: P::State,
    r: Result<U512, Error>,
    e: Error,
)
    requires
        crate::auction::detail::unbonding_created::<P>(s, validator, unbonder, bonding_purse, amount, after, r),
    ensures
        P::balance_in(s, bonding_purse) == Err::<Option<U512>, Error>(e) ==> r == Err::<U512, Error>(e) && after == s,
        P::balance_in(s, bonding_purse) == Ok::<Option<U512>, Error>(None) && amount@ > 0 ==> r == Err::<U512, Error>(
            Error::UnbondTooLarge,
        ) && after == s,
        (P::balance_in(s, bonding_purse) matches Ok(Some(balance)) && balance@ >= amount@) ==> {
            &&& P::key_in(s, "unbonding_purses"@) is None ==> r == Err::<U512, Error>(Error::MissingKey) && after == s
            &&& (P::key_in(s, "unbonding_purses"@) matches Some(Key::URef(at)) && P::value_in(s, at) == Err::<Option<AuctionValue>, Error>(
                e,
            )) ==> r == Err::<U512, Error>(e) && after == s
            &&& (P::key_in(s, "unbonding_purses"@) matches Some(Key::URef(at)) && (P::value_in(s, at) matches Ok(
                Some(AuctionValue::UnbondingPurses(_)),
            )) && P::key_in(s, "era_id"@) is None) ==> r == Err::<U512, Error>(Error::MissingKey) && after == s
        },
{
}

} // verus!
