//! What the auction does with its stored values.

use crate::auction::{
    AuctionProvider, AuctionValue, Bid, Bids, Delegator, Error, SeigniorageAllocation,
    SeigniorageRecipientsSnapshot, UnbondingPurse, UnbondingPurses,
};
use crate::hash::Digest;
use crate::keys::{AccountHash, PublicKey, URef};
use crate::ordered::{OrdKey, OrderedMap};
use crate::uint::U512;
use std::rc::Rc;
use vstd::prelude::*;

verus! {

/// The reference with the given name.
pub open spec fn uref_named<P: AuctionProvider>(s: P::State, name: Seq<char>) -> Result<URef, Error> {
    match P::key_in(s, name) {
        None => Err(Error::MissingKey),
        Some(crate::keys::Key::URef(uref)) => Ok(uref),
        Some(_) => Err(Error::InvalidKeyVariant),
    }
}

/// The value with the given name.
pub open spec fn value_named<P: AuctionProvider>(s: P::State, name: Seq<char>) -> Result<AuctionValue, Error> {
    match uref_named::<P>(s, name) {
        Err(e) => Err(e),
        Ok(uref) => match P::value_in(s, uref) {
            Err(e) => Err(e),
            Ok(None) => Err(Error::MissingValue),
            Ok(Some(value)) => Ok(value),
        },
    }
}

/// The state after a value was written under the given name, or why it was not.
pub open spec fn with_named<P: AuctionProvider>(s: P::State, name: Seq<char>, value: AuctionValue) -> Result<P::State, Error> {
    match uref_named::<P>(s, name) {
        Err(e) => Err(e),
        Ok(uref) => P::written(s, uref, value),
    }
}

/// The state has become what writing leads to, and the result tells whether that worked.
pub open spec fn write_done<P: AuctionProvider>(before: P::State, outcome: Result<P::State, Error>, after: P::State, r: Result<(), Error>) -> bool {
    match outcome {
        Ok(s) => r is Ok && after == s,
        Err(e) => r == Err::<(), Error>(e) && after == before,
    }
}

/// The value as a number of 32 bits.
pub open spec fn as_u32(r: Result<AuctionValue, Error>) -> Result<u32, Error> {
    match r {
        Ok(AuctionValue::U32(n)) => Ok(n),
        Ok(_) => Err(Error::Storage),
        Err(e) => Err(e),
    }
}

/// The value as a number of 64 bits.
pub open spec fn as_u64(r: Result<AuctionValue, Error>) -> Result<u64, Error> {
    match r {
        Ok(AuctionValue::U64(n)) => Ok(n),
        Ok(_) => Err(Error::Storage),
        Err(e) => Err(e),
    }
}

/// The value as bids.
pub open spec fn as_bids(r: Result<AuctionValue, Error>) -> Result<Rc<Bids>, Error> {
    match r {
        Ok(AuctionValue::Bids(bids)) => Ok(bids),
        Ok(_) => Err(Error::Storage),
        Err(e) => Err(e),
    }
}

/// The value as unbonding purses.
pub open spec fn as_unbonding_purses(r: Result<AuctionValue, Error>) -> Result<Rc<UnbondingPurses>, Error> {
    match r {
        Ok(AuctionValue::UnbondingPurses(purses)) => Ok(purses),
        Ok(_) => Err(Error::Storage),
        Err(e) => Err(e),
    }
}

/// The value as a snapshot of the recipients of seigniorage.
pub open spec fn as_snapshot(r: Result<AuctionValue, Error>) -> Result<Rc<SeigniorageRecipientsSnapshot>, Error> {
    match r {
        Ok(AuctionValue::SeigniorageRecipientsSnapshot(snapshot)) => Ok(snapshot),
        Ok(_) => Err(Error::Storage),
        Err(e) => Err(e),
    }
}

/// Reads the value with the given name.
fn read_from<P: AuctionProvider>(provider: &P, name: &str) -> (r: Result<AuctionValue, Error>)
    requires
        provider.wf(),
    ensures
        r == value_named::<P>(provider.state(), name@),
        r matches Ok(value) ==> value.wf(),
{
    let key = match provider.get_key(name) {
        Some(key) => key,
        None => {
            return Err(Error::MissingKey);
        },
    };
    let uref = match key.into_uref() {
        Some(uref) => uref,
        None => {
            return Err(Error::InvalidKeyVariant);
        },
    };
    match provider.read(uref) {
        Ok(Some(value)) => Ok(value),
        Ok(None) => Err(Error::MissingValue),
        Err(e) => Err(e),
    }
}

/// Writes a value under the given name.
fn write_to<P: AuctionProvider>(provider: &mut P, name: &str, value: AuctionValue) -> (r: Result<(), Error>)
    requires
        old(provider).wf(),
        value.wf(),
    ensures
        final(provider).wf(),
        write_done::<P>(
            old(provider).state(),
            with_named::<P>(old(provider).state(), name@, value),
            final(provider).state(),
            r,
        ),
{
    let key = match provider.get_key(name) {
        Some(key) => key,
        None => {
            return Err(Error::MissingKey);
        },
    };
    let uref = match key.into_uref() {
        Some(uref) => uref,
        None => {
            return Err(Error::InvalidKeyVariant);
        },
    };
    provider.write(uref, value)
}

/// Returns the bids.
pub fn get_bids<P: AuctionProvider>(provider: &P) -> (r: Result<Rc<Bids>, Error>)
    requires
        provider.wf(),
    ensures
        r == as_bids(value_named::<P>(provider.state(), "bids"@)),
        r matches Ok(v) ==> v.wf() && crate::auction::bids_ok(v@),
{
    match read_from(provider, "bids") {
        Ok(AuctionValue::Bids(v)) => Ok(v),
        Ok(_) => Err(Error::Storage),
        Err(e) => Err(e),
    }
}

/// Stores the bids.
pub fn set_bids<P: AuctionProvider>(provider: &mut P, validators: Rc<Bids>) -> (r: Result<(), Error>)
    requires
        old(provider).wf(),
        validators.wf(),
        crate::auction::bids_ok(validators@),
    ensures
        final(provider).wf(),
        write_done::<P>(
            old(provider).state(),
            with_named::<P>(old(provider).state(), "bids"@, AuctionValue::Bids(validators)),
            final(provider).state(),
            r,
        ),
{
    write_to(provider, "bids", AuctionValue::Bids(validators))
}

/// Returns what is being unbonded.
pub fn get_unbonding_purses<P: AuctionProvider>(provider: &P) -> (r: Result<Rc<UnbondingPurses>, Error>)
    requires
        provider.wf(),
    ensures
        r == as_unbonding_purses(value_named::<P>(provider.state(), "unbonding_purses"@)),
        r matches Ok(v) ==> v.wf(),
{
    match read_from(provider, "unbonding_purses") {
        Ok(AuctionValue::UnbondingPurses(v)) => Ok(v),
        Ok(_) => Err(Error::Storage),
        Err(e) => Err(e),
    }
}

/// Stores what is being unbonded.
pub fn set_unbonding_purses<P: AuctionProvider>(provider: &mut P, unbonding_purses: Rc<UnbondingPurses>) -> (r: Result<(), Error>)
    requires
        old(provider).wf(),
        unbonding_purses.wf(),
    ensures
        final(provider).wf(),
        write_done::<P>(
            old(provider).state(),
            with_named::<P>(old(provider).state(), "unbonding_purses"@, AuctionValue::UnbondingPurses(unbonding_purses)),
            final(provider).state(),
            r,
        ),
{
    write_to(provider, "unbonding_purses", AuctionValue::UnbondingPurses(unbonding_purses))
}

/// Returns the number of the current era.
pub fn get_era_id<P: AuctionProvider>(provider: &P) -> (r: Result<u64, Error>)
    requires
        provider.wf(),
    ensures
        r == as_u64(value_named::<P>(provider.state(), "era_id"@)),
{
    match read_from(provider, "era_id") {
        Ok(AuctionValue::U64(v)) => Ok(v),
        Ok(_) => Err(Error::Storage),
        Err(e) => Err(e),
    }
}

/// Stores the number of the current era.
pub fn set_era_id<P: AuctionProvider>(provider: &mut P, era_id: u64) -> (r: Result<(), Error>)
    requires
        old(provider).wf(),
    ensures
        final(provider).wf(),
        write_done::<P>(
            old(provider).state(),
            with_named::<P>(old(provider).state(), "era_id"@, AuctionValue::U64(era_id)),
            final(provider).state(),
            r,
        ),
{
    write_to(provider, "era_id", AuctionValue::U64(era_id))
}

/// Returns the time at which the last era ended.
pub fn get_era_end_timestamp_millis<P: AuctionProvider>(provider: &P) -> (r: Result<u64, Error>)
    requires
        provider.wf(),
    ensures
        r == as_u64(value_named::<P>(provider.state(), "era_end_timestamp_millis"@)),
{
    match read_from(provider, "era_end_timestamp_millis") {
        Ok(AuctionValue::U64(v)) => Ok(v),
        Ok(_) => Err(Error::Storage),
        Err(e) => Err(e),
    }
}

/// Stores the time at which the last era ended.
pub fn set_era_end_timestamp_millis<P: AuctionProvider>(provider: &mut P, era_end_timestamp_millis: u64) -> (r: Result<(), Error>)
    requires
        old(provider).wf(),
    ensures
        final(provider).wf(),
        write_done::<P>(
            old(provider).state(),
            with_named::<P>(old(provider).state(), "era_end_timestamp_millis"@, AuctionValue::U64(era_end_timestamp_millis)),
            final(provider).state(),
            r,
        ),
{
    write_to(provider, "era_end_timestamp_millis", AuctionValue::U64(era_end_timestamp_millis))
}

/// Returns the recipients of seigniorage.
pub fn get_seigniorage_recipients_snapshot<P: AuctionProvider>(provider: &P) -> (r: Result<Rc<SeigniorageRecipientsSnapshot>, Error>)
    requires
        provider.wf(),
    ensures
        r == as_snapshot(value_named::<P>(provider.state(), "seigniorage_recipients_snapshot"@)),
        r matches Ok(v) ==> v.wf(),
{
    match read_from(provider, "seigniorage_recipients_snapshot") {
        Ok(AuctionValue::SeigniorageRecipientsSnapshot(v)) => Ok(v),
        Ok(_) => Err(Error::Storage),
        Err(e) => Err(e),
    }
}

/// Stores the recipients of seigniorage.
pub fn set_seigniorage_recipients_snapshot<P: AuctionProvider>(provider: &mut P, snapshot: Rc<SeigniorageRecipientsSnapshot>) -> (r: Result<(), Error>)
    requires
        old(provider).wf(),
        snapshot.wf(),
    ensures
        final(provider).wf(),
        write_done::<P>(
            old(provider).state(),
            with_named::<P>(old(provider).state(), "seigniorage_recipients_snapshot"@, AuctionValue::SeigniorageRecipientsSnapshot(snapshot)),
            final(provider).state(),
            r,
        ),
{
    write_to(provider, "seigniorage_recipients_snapshot", AuctionValue::SeigniorageRecipientsSnapshot(snapshot))
}

/// Returns the number of validator slots.
pub fn get_validator_slots<P: AuctionProvider>(provider: &P) -> (r: Result<usize, Error>)
    requires
        provider.wf(),
    ensures
        match as_u32(value_named::<P>(provider.state(), "validator_slots"@)) {
            Ok(n) => if n <= usize::MAX {
                r is Ok && r->Ok_0 == n
            } else {
                r == Err::<usize, Error>(Error::InvalidValidatorSlotsValue)
            },
            Err(e) => r == Err::<usize, Error>(e),
        },
{
    match read_from(provider, "validator_slots") {
        Ok(AuctionValue::U32(validator_slots)) => {
            // A pointer has at least 32 bits wherever this runs.
            Ok(validator_slots as usize)
        },
        Ok(_) => Err(Error::Storage),
        Err(e) => Err(e),
    }
}

/// Returns the number of eras between an auction and the era for which it is made.
pub fn get_auction_delay<P: AuctionProvider>(provider: &P) -> (r: Result<u64, Error>)
    requires
        provider.wf(),
    ensures
        r == as_u64(value_named::<P>(provider.state(), "auction_delay"@)),
{
    match read_from(provider, "auction_delay") {
        Ok(AuctionValue::U64(v)) => Ok(v),
        Ok(_) => Err(Error::Storage),
        Err(e) => Err(e),
    }
}

/// Returns the number of eras until unbonded stakes are paid out.
fn get_unbonding_delay<P: AuctionProvider>(provider: &P) -> (r: Result<u64, Error>)
    requires
        provider.wf(),
    ensures
        r == as_u64(value_named::<P>(provider.state(), "unbonding_delay"@)),
{
    match read_from(provider, "unbonding_delay") {
        Ok(AuctionValue::U64(v)) => Ok(v),
        Ok(_) => Err(Error::Storage),
        Err(e) => Err(e),
    }
}

/// What was stored under a name is what is found under it, and what is stored under a name that leads
/// to another reference is as it was.
pub proof fn law_found_as_stored<P: AuctionProvider>(s: P::State, name: Seq<char>, value: AuctionValue, other: Seq<char>)
    requires
        with_named::<P>(s, name, value) is Ok,
        uref_named::<P>(s, other) != uref_named::<P>(s, name),
    ensures
        value_named::<P>(with_named::<P>(s, name, value)->Ok_0, name) == Ok::<AuctionValue, Error>(value),
        value_named::<P>(with_named::<P>(s, name, value)->Ok_0, other) == value_named::<P>(s, other),
{
    let uref = uref_named::<P>(s, name)->Ok_0;
    P::lemma_written(s, uref, value);
}

/// The account of the system.
pub open spec fn is_system_account(account: AccountHash) -> bool {
    account.0.0@ == Seq::new(32, |i: int| 0u8)
}

/// Returns whether an account is that of the system.
fn is_system(account: AccountHash) -> (r: bool)
    ensures
        r == is_system_account(account),
{
    let ghost zeros: Seq<u8> = Seq::new(32, |i: int| 0u8);
    let mut i: usize = 0;
    while i < 32
        invariant
            i <= 32,
            zeros == Seq::new(32, |i: int| 0u8),
            forall|j: int| 0 <= j < i ==> account.0.0@[j] == 0,
        decreases 32 - i,
    {
        if account.0.0[i] != 0 {
            assert(account.0.0@[i as int] != zeros[i as int]);
            return false;
        }
        i += 1;
    }
    assert(account.0.0@ =~= zeros);
    true
}

/// What is being unbonded, by validators.
pub open spec fn purses_view(purses: Seq<(PublicKey, Vec<UnbondingPurse>)>) -> Seq<(PublicKey, Seq<UnbondingPurse>)> {
    purses.map_values(|e: (PublicKey, Vec<UnbondingPurse>)| (e.0, e.1@))
}

/// All purses, one list after the other.
pub open spec fn all_purses(purses: Seq<(PublicKey, Seq<UnbondingPurse>)>) -> Seq<UnbondingPurse>
    decreases purses.len(),
{
    if purses.len() == 0 {
        Seq::empty()
    } else {
        all_purses(purses.drop_last()) + purses.last().1
    }
}

/// Purses that can be paid out in an era.
pub open spec fn due(era_id: u64, unbonding_delay: u64) -> spec_fn(UnbondingPurse) -> bool {
    |p: UnbondingPurse| era_id >= p.era_of_creation + unbonding_delay
}

/// Purses that have to wait.
pub open spec fn waiting(era_id: u64, unbonding_delay: u64) -> spec_fn(UnbondingPurse) -> bool {
    |p: UnbondingPurse| !due(era_id, unbonding_delay)(p)
}

/// A validator's purses that have to wait.
pub open spec fn kept_entry(e: (PublicKey, Seq<UnbondingPurse>), era_id: u64, unbonding_delay: u64) -> (PublicKey, Seq<UnbondingPurse>) {
    (e.0, e.1.filter(waiting(era_id, unbonding_delay)))
}

/// Something is left of an entry.
pub open spec fn not_empty() -> spec_fn((PublicKey, Seq<UnbondingPurse>)) -> bool {
    |e: (PublicKey, Seq<UnbondingPurse>)| e.1.len() > 0
}

/// What is left after those purses were paid out that can be.
pub open spec fn left_over(purses: Seq<(PublicKey, Seq<UnbondingPurse>)>, era_id: u64, unbonding_delay: u64) -> Seq<
    (PublicKey, Seq<UnbondingPurse>),
> {
    purses.map_values(|e: (PublicKey, Seq<UnbondingPurse>)| kept_entry(e, era_id, unbonding_delay)).filter(not_empty())
}

/// The state after a purse was paid out.
pub open spec fn paid_one<P: AuctionProvider>(s: P::State, p: UnbondingPurse) -> Option<P::State> {
    P::transferred(s, p.bonding_purse, AccountHash::account_of(p.unbonder_public_key), p.amount)
}

/// The state after purses were paid out one after the other, if all could be.
pub open spec fn paid<P: AuctionProvider>(s: P::State, purses: Seq<UnbondingPurse>) -> Option<P::State>
    decreases purses.len(),
{
    if purses.len() == 0 {
        Some(s)
    } else {
        match paid::<P>(s, purses.drop_last()) {
            None => None,
            Some(before) => paid_one::<P>(before, purses.last()),
        }
    }
}

/// The state in which paying out got stuck: all purses up to one were paid out, and that one cannot be.
pub open spec fn stuck<P: AuctionProvider>(s: P::State, purses: Seq<UnbondingPurse>, after: P::State) -> bool {
    exists|n: int|
        0 <= n < purses.len() && paid::<P>(s, #[trigger] purses.take(n)) == Some(after) && paid_one::<P>(after, purses[n]) is None
}

/// Paying out more purses goes on where paying out the first ones has led.
proof fn lemma_paid_push<P: AuctionProvider>(s: P::State, purses: Seq<UnbondingPurse>, p: UnbondingPurse)
    ensures
        paid::<P>(s, purses.push(p)) == match paid::<P>(s, purses) {
            None => None,
            Some(before) => paid_one::<P>(before, p),
        },
{
    assert(purses.push(p).drop_last() =~= purses);
}

/// When the unbonding purses can be paid out can be told.
pub open spec fn eras_ok(purses: Seq<UnbondingPurse>, unbonding_delay: u64) -> bool {
    forall|i: int| 0 <= i < purses.len() ==> (#[trigger] purses[i]).era_of_creation + unbonding_delay <= u64::MAX
}

/// What is needed to process unbond requests.
pub open spec fn unbond_inputs<P: AuctionProvider>(s: P::State) -> Result<(Rc<UnbondingPurses>, u64, u64), Error> {
    if !is_system_account(P::caller_in(s)) {
        Err(Error::InvalidCaller)
    } else {
        match as_unbonding_purses(value_named::<P>(s, "unbonding_purses"@)) {
            Err(e) => Err(e),
            Ok(purses) => match as_u64(value_named::<P>(s, "era_id"@)) {
                Err(e) => Err(e),
                Ok(era_id) => match as_u64(value_named::<P>(s, "unbonding_delay"@)) {
                    Err(e) => Err(e),
                    Ok(unbonding_delay) => Ok((purses, era_id, unbonding_delay)),
                },
            },
        }
    }
}

/// The requests have been processed with the given result.
pub open spec fn unbonds_processed<P: AuctionProvider>(s: P::State, after: P::State, r: Result<(), Error>) -> bool {
    match unbond_inputs::<P>(s) {
        Err(e) => r == Err::<(), Error>(e) && after == s,
        Ok((purses, era_id, unbonding_delay)) => {
            let entries = purses_view(purses@);
            let to_pay = all_purses(entries).filter(due(era_id, unbonding_delay));
            match paid::<P>(s, to_pay) {
                None => r == Err::<(), Error>(Error::TransferToUnbondingPurse) && stuck::<P>(s, to_pay, after),
                Some(after_payment) => exists|left: Rc<UnbondingPurses>|
                    purses_view(left@) == left_over(entries, era_id, unbonding_delay) && #[trigger] write_done::<P>(
                        after_payment,
                        with_named::<P>(after_payment, "unbonding_purses"@, AuctionValue::UnbondingPurses(left)),
                        after,
                        r,
                    ),
            }
        },
    }
}

/// Pays out the purses of a list that can be, and returns the others. Returns `None` if that got stuck.
fn pay_out<P: AuctionProvider>(provider: &mut P, purses: &Vec<UnbondingPurse>, era_id: u64, unbonding_delay: u64) -> (r: Option<
    Vec<UnbondingPurse>,
>)
    requires
        old(provider).wf(),
        eras_ok(purses@, unbonding_delay),
    ensures
        final(provider).wf(),
        match r {
            Some(kept) => {
                &&& kept@ == purses@.filter(waiting(era_id, unbonding_delay))
                &&& paid::<P>(old(provider).state(), purses@.filter(due(era_id, unbonding_delay))) == Some(
                    final(provider).state(),
                )
            },
            None => stuck::<P>(
                old(provider).state(),
                purses@.filter(due(era_id, unbonding_delay)),
                final(provider).state(),
            ),
        },
{
    let ghost s0 = provider.state();
    let ghost d = due(era_id, unbonding_delay);
    let ghost w = waiting(era_id, unbonding_delay);
    let mut new_unbonding_list: Vec<UnbondingPurse> = Vec::new();
    let mut i: usize = 0;
    assert(purses@.take(0).filter(d) =~= Seq::empty()) by {
        reveal(Seq::filter);
    }
    assert(purses@.take(0).filter(w) =~= Seq::empty()) by {
        reveal(Seq::filter);
    }
    while i < purses.len()
        invariant
            i <= purses@.len(),
            provider.wf(),
            s0 == old(provider).state(),
            eras_ok(purses@, unbonding_delay),
            d == due(era_id, unbonding_delay),
            w == waiting(era_id, unbonding_delay),
            new_unbonding_list@ == purses@.take(i as int).filter(w),
            paid::<P>(s0, purses@.take(i as int).filter(d)) == Some(provider.state()),
        decreases purses@.len() - i,
    {
        let unbonding_purse = purses[i];
        proof {
            purses@.take(i as int).lemma_filter_push(unbonding_purse, d);
            purses@.take(i as int).lemma_filter_push(unbonding_purse, w);
            assert(purses@.take(i as int).push(unbonding_purse) =~= purses@.take(i + 1));
            lemma_paid_push::<P>(s0, purses@.take(i as int).filter(d), unbonding_purse);
        }
        // Since `process_unbond_requests` is run before `run_auction`, we should check if the
        // unbonding delay has passed since the era in which unbonding was asked for.
        if era_id >= unbonding_purse.era_of_creation + unbonding_delay {
            let account_hash = AccountHash::from_public_key(&unbonding_purse.unbonder_public_key);
            // Move funds from bid purse to unbonding purse
            if !provider.transfer_purse_to_account(unbonding_purse.bonding_purse, account_hash, unbonding_purse.amount) {
                proof {
                    lemma_filter_take(purses@, i as int, d);
                    let n = purses@.take(i as int).filter(d).len() as int;
                    let all = purses@.filter(d);
                    assert(paid::<P>(s0, all.take(n)) == Some(provider.state()));
                    assert(all[n] == unbonding_purse);
                }
                return None;
            }
        } else {
            new_unbonding_list.push(unbonding_purse);
        }
        i += 1;
    }
    assert(purses@.take(purses@.len() as int) =~= purses@);
    Some(new_unbonding_list)
}

/// Filtering a prefix gives a prefix of what filtering gives, and what comes next is next in it.
proof fn lemma_filter_take(s: Seq<UnbondingPurse>, i: int, p: spec_fn(UnbondingPurse) -> bool)
    requires
        0 <= i < s.len(),
        p(s[i]),
    ensures
        s.take(i).filter(p).len() < s.filter(p).len(),
        s.filter(p).take(s.take(i).filter(p).len() as int) == s.take(i).filter(p),
        s.filter(p)[s.take(i).filter(p).len() as int] == s[i],
{
    let a = s.take(i);
    let b = s.skip(i + 1);
    assert(s =~= a.push(s[i]) + b);
    Seq::filter_distributes_over_add(a.push(s[i]), b, p);
    a.lemma_filter_push(s[i], p);
    assert(s.filter(p).take(a.filter(p).len() as int) =~= a.filter(p));
}

/// Paying out two lists is paying out the first one and after it the second one.
proof fn lemma_paid_concat<P: AuctionProvider>(s: P::State, a: Seq<UnbondingPurse>, b: Seq<UnbondingPurse>)
    ensures
        paid::<P>(s, a + b) == match paid::<P>(s, a) {
            None => None,
            Some(mid) => paid::<P>(mid, b),
        },
    decreases b.len(),
{
    if b.len() == 0 {
        assert(a + b =~= a);
    } else {
        lemma_paid_concat::<P>(s, a, b.drop_last());
        assert((a + b).drop_last() =~= a + b.drop_last());
        assert((a + b).last() == b.last());
    }
}

/// Getting stuck in the second of two lists is getting stuck in both together.
proof fn lemma_stuck_concat<P: AuctionProvider>(
    s: P::State,
    a: Seq<UnbondingPurse>,
    mid: P::State,
    b: Seq<UnbondingPurse>,
    c: Seq<UnbondingPurse>,
    after: P::State,
)
    requires
        paid::<P>(s, a) == Some(mid),
        stuck::<P>(mid, b, after),
    ensures
        stuck::<P>(s, a + b + c, after),
        paid::<P>(s, a + b + c) is None,
{
    let n = choose|n: int|
        0 <= n < b.len() && paid::<P>(mid, #[trigger] b.take(n)) == Some(after) && paid_one::<P>(after, b[n]) is None;
    let all = a + b + c;
    let m = a.len() + n;
    assert(all.take(m) =~= a + b.take(n));
    lemma_paid_concat::<P>(s, a, b.take(n));
    assert(all[m] == b[n]);
    assert(paid::<P>(s, all.take(m)) == Some(after));
    lemma_paid_push::<P>(s, all.take(m), all[m]);
    assert(all =~= all.take(m).push(all[m]) + all.skip(m + 1));
    lemma_paid_concat::<P>(s, all.take(m).push(all[m]), all.skip(m + 1));
}

/// Iterates over unbonding entries and checks if a locked amount can be paid already if
/// a specific era is reached.
///
/// This function can be called by the system only.
pub fn process_unbond_requests<P: AuctionProvider>(provider: &mut P) -> (r: Result<(), Error>)
    requires
        old(provider).wf(),
        unbond_inputs::<P>(old(provider).state()) matches Ok((purses, _, unbonding_delay)) ==> eras_ok(
            all_purses(purses_view(purses@)),
            unbonding_delay,
        ),
    ensures
        final(provider).wf(),
        unbonds_processed::<P>(old(provider).state(), final(provider).state(), r),
{
    if !is_system(provider.get_caller()) {
        return Err(Error::InvalidCaller);
    }
    // Update `unbonding_purses` data
    let unbonding_purses = match get_unbonding_purses(provider) {
        Ok(purses) => purses,
        Err(e) => {
            return Err(e);
        },
    };
    let current_era_id = match get_era_id(provider) {
        Ok(era_id) => era_id,
        Err(e) => {
            return Err(e);
        },
    };
    let unbonding_delay = match get_unbonding_delay(provider) {
        Ok(unbonding_delay) => unbonding_delay,
        Err(e) => {
            return Err(e);
        },
    };
    let ghost s0 = provider.state();
    let ghost entries = purses_view(unbonding_purses@);
    let ghost d = due(current_era_id, unbonding_delay);
    let ghost keep = |e: (PublicKey, Seq<UnbondingPurse>)| kept_entry(e, current_era_id, unbonding_delay);
    let ghost q = not_empty();
    let mut left: UnbondingPurses = OrderedMap::new();
    let mut i: usize = 0;
    proof {
        assert(all_purses(entries.take(0)).filter(d) =~= Seq::empty()) by {
            reveal(Seq::filter);
        }
        assert(entries.take(0).map_values(keep).filter(q) =~= Seq::empty()) by {
            reveal(Seq::filter);
        }
        assert(purses_view(left@) =~= Seq::empty());
    }
    while i < unbonding_purses.len()
        invariant
            i <= unbonding_purses@.len(),
            provider.wf(),
            unbonding_purses.wf(),
            s0 == old(provider).state(),
            unbond_inputs::<P>(s0) == Ok::<(Rc<UnbondingPurses>, u64, u64), Error>(
                (unbonding_purses, current_era_id, unbonding_delay),
            ),
            entries == purses_view(unbonding_purses@),
            eras_ok(all_purses(entries), unbonding_delay),
            d == due(current_era_id, unbonding_delay),
            keep == (|e: (PublicKey, Seq<UnbondingPurse>)| kept_entry(e, current_era_id, unbonding_delay)),
            q == not_empty(),
            left.wf(),
            left@.len() > 0 ==> exists|j: int| 0 <= j < i && #[trigger] unbonding_purses@[j].0 == left@.last().0,
            purses_view(left@) == entries.take(i as int).map_values(keep).filter(q),
            paid::<P>(s0, all_purses(entries.take(i as int)).filter(d)) == Some(provider.state()),
        decreases unbonding_purses@.len() - i,
    {
        let key = unbonding_purses.key_at(i);
        let unbonding_list = unbonding_purses.value_at(i);
        let ghost e = entries[i as int];
        let ghost before = entries.take(i as int);
        let ghost first = all_purses(before).filter(d);
        let ghost second = e.1.filter(d);
        let ghost rest = all_purses_from(entries, i + 1).filter(d);
        let ghost mid = provider.state();
        proof {
            assert(entries.take(i + 1).drop_last() =~= before);
            assert(entries.take(i + 1).last() == e);
            Seq::filter_distributes_over_add(all_purses(before), e.1, d);
            lemma_paid_concat::<P>(s0, first, second);
            lemma_list_within(entries, i as int);
            lemma_split(entries, i as int);
            Seq::filter_distributes_over_add(all_purses(before) + e.1, all_purses_from(entries, i + 1), d);
        }
        let kept = match pay_out(provider, unbonding_list, current_era_id, unbonding_delay) {
            Some(kept) => kept,
            None => {
                proof {
                    lemma_stuck_concat::<P>(s0, first, mid, second, rest, provider.state());
                }
                return Err(Error::TransferToUnbondingPurse);
            },
        };
        proof {
            let mapped = before.map_values(keep);
            mapped.lemma_filter_push(keep(e), q);
            assert(mapped.push(keep(e)) =~= entries.take(i + 1).map_values(keep));
        }
        // Prune empty entries
        if kept.len() > 0 {
            let ghost left_before = left@;
            proof {
                if left@.len() > 0 {
                    let j = choose|j: int| 0 <= j < i && #[trigger] unbonding_purses@[j].0 == left@.last().0;
                    assert(unbonding_purses@[j].0.before(unbonding_purses@[i as int].0));
                }
            }
            left.push(key, kept);
            proof {
                assert(purses_view(left@) =~= purses_view(left_before).push((key, kept@)));
                assert(unbonding_purses@[i as int].0 == left@.last().0);
            }
        }
        i += 1;
    }
    proof {
        assert(entries.take(entries.len() as int) =~= entries);
    }
    let left = Rc::new(left);
    let ghost after_payment = provider.state();
    let r = set_unbonding_purses(provider, left.clone());
    assert(write_done::<P>(
        after_payment,
        with_named::<P>(after_payment, "unbonding_purses"@, AuctionValue::UnbondingPurses(left)),
        provider.state(),
        r,
    ));
    r
}

/// All purses from the list at position `i` on.
spec fn all_purses_from(purses: Seq<(PublicKey, Seq<UnbondingPurse>)>, i: int) -> Seq<UnbondingPurse> {
    all_purses(purses.skip(i))
}

/// All purses of two sequences of lists.
proof fn lemma_all_concat(a: Seq<(PublicKey, Seq<UnbondingPurse>)>, b: Seq<(PublicKey, Seq<UnbondingPurse>)>)
    ensures
        all_purses(a + b) == all_purses(a) + all_purses(b),
    decreases b.len(),
{
    if b.len() == 0 {
        assert(a + b =~= a);
        assert(all_purses(a) + all_purses(b) =~= all_purses(a));
    } else {
        lemma_all_concat(a, b.drop_last());
        assert((a + b).drop_last() =~= a + b.drop_last());
        assert((a + b).last() == b.last());
        assert(all_purses(a) + all_purses(b) =~= all_purses(a) + all_purses(b.drop_last()) + b.last().1);
    }
}

/// All purses are those of the lists before one, of that one, and of those after it.
proof fn lemma_split(purses: Seq<(PublicKey, Seq<UnbondingPurse>)>, i: int)
    requires
        0 <= i < purses.len(),
    ensures
        all_purses(purses) == all_purses(purses.take(i)) + purses[i].1 + all_purses_from(purses, i + 1),
{
    let a = purses.take(i + 1);
    assert(purses =~= a + purses.skip(i + 1));
    lemma_all_concat(a, purses.skip(i + 1));
    assert(a.drop_last() =~= purses.take(i));
}

/// The purses of one list are among all purses.
proof fn lemma_list_within(purses: Seq<(PublicKey, Seq<UnbondingPurse>)>, i: int)
    requires
        0 <= i < purses.len(),
    ensures
        forall|delay: u64| #[trigger] eras_ok(all_purses(purses), delay) ==> eras_ok(purses[i].1, delay),
{
    lemma_split(purses, i);
    let all = all_purses(purses);
    let n = all_purses(purses.take(i)).len();
    assert forall|delay: u64| #[trigger] eras_ok(all, delay) implies eras_ok(purses[i].1, delay) by {
        assert forall|j: int| 0 <= j < purses[i].1.len() implies (#[trigger] purses[i].1[j]).era_of_creation + delay <= u64::MAX by {
            assert(all[n + j] == purses[i].1[j]);
        }
    }
}

/// Viewing the lists does not change where keys stand.
proof fn lemma_view_rank(purses: Seq<(PublicKey, Vec<UnbondingPurse>)>, key: PublicKey)
    ensures
        crate::ordered::rank(purses_view(purses), key) == crate::ordered::rank(purses, key),
        0 <= crate::ordered::rank(purses, key) <= purses.len(),
    decreases purses.len(),
{
    if purses.len() > 0 {
        assert(purses_view(purses).skip(1) =~= purses_view(purses.skip(1)));
        assert(purses_view(purses)[0].0 == purses[0].0);
        lemma_view_rank(purses.skip(1), key);
    }
}

/// Viewing the lists of a map with one more entry.
proof fn lemma_view_with_entry(purses: Seq<(PublicKey, Vec<UnbondingPurse>)>, key: PublicKey, list: Vec<UnbondingPurse>)
    ensures
        purses_view(crate::ordered::with_entry(purses, key, list)) == crate::ordered::with_entry(purses_view(purses), key, list@),
{
    lemma_view_rank(purses, key);
    assert(purses_view(crate::ordered::with_entry(purses, key, list)) =~= crate::ordered::with_entry(
        purses_view(purses),
        key,
        list@,
    ));
}

/// Returns a copy.
fn copy_list(list: &Vec<UnbondingPurse>) -> (r: Vec<UnbondingPurse>)
    ensures
        r@ == list@,
{
    let mut r: Vec<UnbondingPurse> = Vec::new();
    let mut i: usize = 0;
    while i < list.len()
        invariant
            i <= list@.len(),
            r@ == list@.take(i as int),
        decreases list@.len() - i,
    {
        r.push(list[i]);
        assert(r@ =~= list@.take(i + 1));
        i += 1;
    }
    assert(r@ =~= list@);
    r
}

/// Returns a copy.
fn copy_purses(purses: &UnbondingPurses) -> (r: UnbondingPurses)
    requires
        purses.wf(),
    ensures
        r.wf(),
        purses_view(r@) == purses_view(purses@),
{
    let ghost all = purses_view(purses@);
    let mut r: UnbondingPurses = OrderedMap::new();
    let mut i: usize = 0;
    assert(purses_view(r@) =~= all.take(0));
    while i < purses.len()
        invariant
            i <= purses@.len(),
            purses.wf(),
            all == purses_view(purses@),
            r.wf(),
            r@.len() == i,
            purses_view(r@) == all.take(i as int),
        decreases purses@.len() - i,
    {
        let ghost before = r@;
        proof {
            if i > 0 {
                assert(purses_view(r@)[i - 1] == all.take(i as int)[i - 1]);
                assert(all[i - 1].0 == purses@[i - 1].0);
                assert(r@.last().0 == purses@[i - 1].0);
                assert(purses@[i - 1].0.before(purses@[i as int].0));
            }
        }
        let list = copy_list(purses.value_at(i));
        r.push(purses.key_at(i), list);
        assert(purses_view(r@) =~= all.take(i + 1));
        i += 1;
    }
    assert(purses_view(r@) =~= all);
    r
}

/// The purses with one more.
pub open spec fn with_purse(purses: Seq<(PublicKey, Seq<UnbondingPurse>)>, key: PublicKey, purse: UnbondingPurse) -> Seq<
    (PublicKey, Seq<UnbondingPurse>),
> {
    let list = match crate::ordered::value_of(purses, key) {
        Some(list) => list,
        None => Seq::empty(),
    };
    crate::ordered::with_entry(purses, key, list.push(purse))
}

/// What a purse holds, or why that is not known.
pub open spec fn purse_balance<P: AuctionProvider>(s: P::State, purse: URef) -> Result<int, Error> {
    match P::balance_in(s, purse) {
        Err(e) => Err(e),
        Ok(None) => Ok(0),
        Ok(Some(balance)) => Ok(balance@),
    }
}

/// The unbonding purse has been created with the given result.
pub open spec fn unbonding_created<P: AuctionProvider>(
    s: P::State,
    validator_public_key: PublicKey,
    unbonder_public_key: PublicKey,
    bonding_purse: URef,
    amount: U512,
    after: P::State,
    r: Result<U512, Error>,
) -> bool {
    match purse_balance::<P>(s, bonding_purse) {
        Err(e) => r == Err::<U512, Error>(e) && after == s,
        Ok(balance) => if balance < amount@ {
            r == Err::<U512, Error>(Error::UnbondTooLarge) && after == s
        } else {
            match as_unbonding_purses(value_named::<P>(s, "unbonding_purses"@)) {
                Err(e) => r == Err::<U512, Error>(e) && after == s,
                Ok(purses) => match as_u64(value_named::<P>(s, "era_id"@)) {
                    Err(e) => r == Err::<U512, Error>(e) && after == s,
                    Ok(era_of_creation) => exists|new_purses: Rc<UnbondingPurses>|
                        {
                            &&& purses_view(new_purses@) == with_purse(
                                purses_view(purses@),
                                validator_public_key,
                                UnbondingPurse {
                                    bonding_purse,
                                    validator_public_key,
                                    unbonder_public_key,
                                    era_of_creation,
                                    amount,
                                },
                            )
                            &&& match #[trigger] with_named::<P>(
                                s,
                                "unbonding_purses"@,
                                AuctionValue::UnbondingPurses(new_purses),
                            ) {
                                Ok(s1) => r is Ok && r->Ok_0@ == balance - amount@ && after == s1,
                                Err(e) => r == Err::<U512, Error>(e) && after == s,
                            }
                        },
                },
            }
        },
    }
}

/// Creates a new purse in unbonding_purses given a validator's key, amount, and a destination
/// unbonding purse. Returns the amount of motes remaining in the validator's bid purse.
pub fn create_unbonding_purse<P: AuctionProvider>(
    provider: &mut P,
    validator_public_key: PublicKey,
    unbonder_public_key: PublicKey,
    bonding_purse: URef,
    amount: U512,
) -> (r: Result<U512, Error>)
    requires
        old(provider).wf(),
    ensures
        final(provider).wf(),
        unbonding_created::<P>(
            old(provider).state(),
            validator_public_key,
            unbonder_public_key,
            bonding_purse,
            amount,
            final(provider).state(),
            r,
        ),
{
    let balance = match provider.get_balance(bonding_purse) {
        Ok(Some(balance)) => balance,
        Ok(None) => U512::zero(),
        Err(e) => {
            return Err(e);
        },
    };
    let remaining = match balance.checked_sub(&amount) {
        Some(remaining) => remaining,
        None => {
            return Err(Error::UnbondTooLarge);
        },
    };
    let stored = match get_unbonding_purses(provider) {
        Ok(purses) => purses,
        Err(e) => {
            return Err(e);
        },
    };
    let era_of_creation = match get_era_id(provider) {
        Ok(era_id) => era_id,
        Err(e) => {
            return Err(e);
        },
    };
    let mut unbonding_purses = copy_purses(&stored);
    let ghost before = unbonding_purses@;
    let new_unbonding_purse = UnbondingPurse {
        bonding_purse,
        validator_public_key,
        unbonder_public_key,
        era_of_creation,
        amount,
    };
    proof {
        lemma_view_rank(before, validator_public_key);
    }
    match unbonding_purses.get_mut(&validator_public_key) {
        Some(list) => {
            list.push(new_unbonding_purse);
        },
        None => {
            let mut list: Vec<UnbondingPurse> = Vec::new();
            list.push(new_unbonding_purse);
            let _ = unbonding_purses.insert(validator_public_key, list);
        },
    }
    proof {
        let list = crate::ordered::value_of(unbonding_purses@, validator_public_key);
        let old_list = crate::ordered::value_of(before, validator_public_key);
        let goal = with_purse(purses_view(before), validator_public_key, new_unbonding_purse);
        let new_list = choose|l: Vec<UnbondingPurse>|
            unbonding_purses@ == #[trigger] crate::ordered::with_entry(before, validator_public_key, l) && l@ == (match old_list {
                Some(o) => o@,
                None => Seq::empty(),
            }).push(new_unbonding_purse);
        lemma_view_with_entry(before, validator_public_key, new_list);
        assert(purses_view(unbonding_purses@) == goal);
    }
    let new_purses = Rc::new(unbonding_purses);
    match set_unbonding_purses(provider, new_purses.clone()) {
        Ok(()) => {
            assert(with_named::<P>(
                old(provider).state(),
                "unbonding_purses"@,
                AuctionValue::UnbondingPurses(new_purses),
            ) == Ok::<P::State, Error>(provider.state()));
            Ok(remaining)
        },
        Err(e) => {
            assert(with_named::<P>(
                old(provider).state(),
                "unbonding_purses"@,
                AuctionValue::UnbondingPurses(new_purses),
            ) == Err::<P::State, Error>(e));
            Err(e)
        },
    }
}

/// Every unbonding purse is either paid out or kept: what is left over are exactly the purses that
/// have to wait, in the same order.
pub proof fn law_paid_or_kept(purses: Seq<(PublicKey, Seq<UnbondingPurse>)>, era_id: u64, unbonding_delay: u64)
    ensures
        all_purses(left_over(purses, era_id, unbonding_delay)) == all_purses(purses).filter(waiting(era_id, unbonding_delay)),
        all_purses(purses).filter(due(era_id, unbonding_delay)).len() + all_purses(
            left_over(purses, era_id, unbonding_delay),
        ).len() == all_purses(purses).len(),
{
    lemma_left_over(purses, era_id, unbonding_delay);
    lemma_parted(all_purses(purses), era_id, unbonding_delay);
}

/// What is left over are the purses that have to wait.
proof fn lemma_left_over(purses: Seq<(PublicKey, Seq<UnbondingPurse>)>, era_id: u64, unbonding_delay: u64)
    ensures
        all_purses(left_over(purses, era_id, unbonding_delay)) == all_purses(purses).filter(waiting(era_id, unbonding_delay)),
    decreases purses.len(),
{
    let w = waiting(era_id, unbonding_delay);
    let q = not_empty();
    let keep = |e: (PublicKey, Seq<UnbondingPurse>)| kept_entry(e, era_id, unbonding_delay);
    if purses.len() == 0 {
        reveal(Seq::filter);
        assert(left_over(purses, era_id, unbonding_delay) =~= Seq::empty());
        assert(all_purses(purses).filter(w) =~= Seq::empty());
    } else {
        let rest = purses.drop_last();
        let e = purses.last();
        lemma_left_over(rest, era_id, unbonding_delay);
        Seq::filter_distributes_over_add(all_purses(rest), e.1, w);
        let mapped = rest.map_values(keep);
        mapped.lemma_filter_push(keep(e), q);
        assert(mapped.push(keep(e)) =~= purses.map_values(keep));
        let left = left_over(rest, era_id, unbonding_delay);
        if q(keep(e)) {
            assert(left_over(purses, era_id, unbonding_delay) == left.push(keep(e)));
            assert(left.push(keep(e)).drop_last() =~= left);
        } else {
            assert(e.1.filter(w) =~= Seq::empty());
            assert(all_purses(rest).filter(w) + e.1.filter(w) =~= all_purses(rest).filter(w));
        }
    }
}

/// A purse is due or has to wait.
proof fn lemma_parted(purses: Seq<UnbondingPurse>, era_id: u64, unbonding_delay: u64)
    ensures
        purses.filter(due(era_id, unbonding_delay)).len() + purses.filter(waiting(era_id, unbonding_delay)).len() == purses.len(),
    decreases purses.len(),
{
    reveal(Seq::filter);
    if purses.len() > 0 {
        lemma_parted(purses.drop_last(), era_id, unbonding_delay);
    }
}

/// A fraction with a positive denominator.
#[derive(Clone, Copy, Debug)]
pub struct U512Ratio {
    pub numer: U512,
    pub denom: U512,
}

impl U512Ratio {
    /// The denominator is not zero.
    pub open spec fn wf(&self) -> bool {
        self.denom@ > 0
    }

    /// The integral part.
    pub open spec fn trunc(&self) -> U512 {
        U512::of(self.numer@ / self.denom@)
    }

    /// Returns the integral part.
    pub fn to_integer(&self) -> (r: U512)
        requires
            self.wf(),
        ensures
            r == self.trunc(),
            r@ == self.numer@ / self.denom@,
    {
        let r = self.numer.divided_by(&self.denom);
        proof {
            r.lemma_of();
        }
        r
    }
}

/// A bid's delegators while rewards are given out to them.
#[verifier::ext_equal]
pub ghost struct Rewarding {
    pub delegators: Seq<(PublicKey, Delegator)>,
    pub allocations: Seq<SeigniorageAllocation>,
    pub payouts: Seq<(U512, URef)>,
    /// No stake has become too large.
    pub ok: bool,
}

impl Rewarding {
    /// After one more reward. It is passed over if it is for no delegator of the bid.
    pub open spec fn with_reward(self, validator: PublicKey, reward: (PublicKey, U512Ratio)) -> Rewarding {
        match crate::ordered::value_of(self.delegators, reward.0) {
            None => self,
            Some(delegator) => {
                let amount = reward.1.trunc();
                if !self.ok {
                    self
                } else if delegator.staked_amount@ + amount@ >= crate::uint::limit() {
                    Rewarding { ok: false, ..self }
                } else {
                    Rewarding {
                        delegators: crate::ordered::with_entry(
                            self.delegators,
                            reward.0,
                            Delegator { staked_amount: U512::of(delegator.staked_amount@ + amount@), ..delegator },
                        ),
                        allocations: self.allocations.push(
                            SeigniorageAllocation::Delegator {
                                delegator_public_key: reward.0,
                                validator_public_key: validator,
                                amount,
                            },
                        ),
                        payouts: self.payouts.push((amount, delegator.bonding_purse)),
                        ok: true,
                    }
                }
            },
        }
    }

    /// After a number of rewards.
    pub open spec fn with_rewards(self, validator: PublicKey, rewards: Seq<(PublicKey, U512Ratio)>) -> Rewarding
        decreases rewards.len(),
    {
        if rewards.len() == 0 {
            self
        } else {
            self.with_rewards(validator, rewards.drop_last()).with_reward(validator, rewards.last())
        }
    }
}

/// Once a stake has become too large nothing changes any more.
proof fn lemma_rewards_stop(m: Rewarding, validator: PublicKey, rewards: Seq<(PublicKey, U512Ratio)>, n: int)
    requires
        0 <= n <= rewards.len(),
        !m.with_rewards(validator, rewards.take(n)).ok,
    ensures
        m.with_rewards(validator, rewards) == m.with_rewards(validator, rewards.take(n)),
    decreases rewards.len() - n,
{
    if n == rewards.len() {
        assert(rewards.take(n) =~= rewards);
    } else {
        assert(rewards.take(n + 1).drop_last() =~= rewards.take(n));
        lemma_rewards_stop(m, validator, rewards, n + 1);
    }
}

impl Delegator {
    /// Increases the stake.
    pub fn increase_stake(&mut self, amount: U512) -> (r: Result<(), Error>)
        ensures
            match r {
                Ok(()) => {
                    &&& old(self).staked_amount@ + amount@ < crate::uint::limit()
                    &&& *final(self) == (Delegator {
                        staked_amount: U512::of(old(self).staked_amount@ + amount@),
                        ..*old(self)
                    })
                },
                Err(e) => {
                    &&& e == Error::InvalidAmount
                    &&& old(self).staked_amount@ + amount@ >= crate::uint::limit()
                    &&& *final(self) == *old(self)
                },
            },
    {
        match self.staked_amount.checked_add(&amount) {
            Some(updated) => {
                proof {
                    updated.lemma_of();
                }
                self.staked_amount = updated;
                Ok(())
            },
            None => Err(Error::InvalidAmount),
        }
    }
}

/// Gives out rewards to the delegators of a bid.
fn reward_delegators(
    bid: &mut Bid,
    seigniorage_allocations: &mut Vec<SeigniorageAllocation>,
    validator_public_key: PublicKey,
    rewards: &Vec<(PublicKey, U512Ratio)>,
) -> (r: Result<Vec<(U512, URef)>, Error>)
    requires
        old(bid).delegators.wf(),
        forall|i: int| 0 <= i < rewards@.len() ==> (#[trigger] rewards@[i]).1.wf(),
    ensures
        final(bid).delegators.wf(),
        final(bid).bonding_purse == old(bid).bonding_purse,
        final(bid).staked_amount == old(bid).staked_amount,
        final(bid).delegation_rate == old(bid).delegation_rate,
        final(bid).release_era == old(bid).release_era,
        ({
            let m = Rewarding {
                delegators: old(bid).delegators@,
                allocations: old(seigniorage_allocations)@,
                payouts: Seq::empty(),
                ok: true,
            }.with_rewards(validator_public_key, rewards@);
            &&& final(bid).delegators@ == m.delegators
            &&& final(seigniorage_allocations)@ == m.allocations
            &&& match r {
                Ok(payouts) => m.ok && payouts@ == m.payouts,
                Err(e) => !m.ok && e == Error::InvalidAmount,
            }
        }),
{
    let mut delegator_payouts: Vec<(U512, URef)> = Vec::new();
    let ghost start = Rewarding {
        delegators: bid.delegators@,
        allocations: seigniorage_allocations@,
        payouts: Seq::empty(),
        ok: true,
    };
    let mut i: usize = 0;
    assert(rewards@.take(0) =~= Seq::empty());
    while i < rewards.len()
        invariant
            i <= rewards@.len(),
            forall|i: int| 0 <= i < rewards@.len() ==> (#[trigger] rewards@[i]).1.wf(),
            start == (Rewarding {
                delegators: old(bid).delegators@,
                allocations: old(seigniorage_allocations)@,
                payouts: Seq::empty(),
                ok: true,
            }),
            bid.delegators.wf(),
            bid.bonding_purse == old(bid).bonding_purse,
            bid.staked_amount == old(bid).staked_amount,
            bid.delegation_rate == old(bid).delegation_rate,
            bid.release_era == old(bid).release_era,
            start.with_rewards(validator_public_key, rewards@.take(i as int)) == (Rewarding {
                delegators: bid.delegators@,
                allocations: seigniorage_allocations@,
                payouts: delegator_payouts@,
                ok: true,
            }),
        decreases rewards@.len() - i,
    {
        let (delegator_key, delegator_reward) = rewards[i];
        let ghost now = start.with_rewards(validator_public_key, rewards@.take(i as int));
        let ghost next = start.with_rewards(validator_public_key, rewards@.take(i + 1));
        proof {
            assert(rewards@.take(i + 1).drop_last() =~= rewards@.take(i as int));
            assert(rewards@.take(i + 1).last() == rewards@[i as int]);
            assert(next == now.with_reward(validator_public_key, rewards@[i as int]));
        }
        let delegator_reward_trunc = delegator_reward.to_integer();
        match bid.delegators.get_mut(&delegator_key) {
            Some(delegator) => {
                let ghost before = *delegator;
                match delegator.increase_stake(delegator_reward_trunc) {
                    Ok(()) => {
                        delegator_payouts.push((delegator_reward_trunc, delegator.bonding_purse));
                        seigniorage_allocations.push(
                            SeigniorageAllocation::Delegator {
                                delegator_public_key: delegator_key,
                                validator_public_key,
                                amount: delegator_reward_trunc,
                            },
                        );
                    },
                    Err(e) => {
                        proof {
                            lemma_rewards_stop(start, validator_public_key, rewards@, i + 1);
                            crate::ordered::lemma_same_entry(now.delegators, delegator_key, before);
                        }
                        return Err(e);
                    },
                }
            },
            None => {},
        }
        i += 1;
    }
    assert(rewards@.take(rewards@.len() as int) =~= rewards@);
    Ok(delegator_payouts)
}

/// The bid has only got other delegators.
pub open spec fn with_delegators(bid: Bid, delegators: Seq<(PublicKey, Delegator)>, after: Bid) -> bool {
    &&& after.bonding_purse == bid.bonding_purse
    &&& after.staked_amount == bid.staked_amount
    &&& after.delegation_rate == bid.delegation_rate
    &&& after.release_era == bid.release_era
    &&& after.delegators@ == delegators
    &&& after.delegators.wf()
}

/// The rewards of a validator's delegators were added to their stakes.
pub open spec fn delegators_rewarded(
    bids: Seq<(PublicKey, Bid)>,
    allocations: Seq<SeigniorageAllocation>,
    validator_public_key: PublicKey,
    rewards: Seq<(PublicKey, U512Ratio)>,
    bids_after: Seq<(PublicKey, Bid)>,
    allocations_after: Seq<SeigniorageAllocation>,
    r: Result<Vec<(U512, URef)>, Error>,
) -> bool {
    match crate::ordered::value_of(bids, validator_public_key) {
        // Validator has been slashed
        None => {
            &&& r matches Ok(payouts)
            &&& payouts@ == Seq::<(U512, URef)>::empty()
            &&& bids_after == bids
            &&& allocations_after == allocations
        },
        Some(bid) => {
            let m = Rewarding { delegators: bid.delegators@, allocations, payouts: Seq::empty(), ok: true }.with_rewards(
                validator_public_key,
                rewards,
            );
            &&& exists|after: Bid|
                with_delegators(bid, m.delegators, after) && bids_after == #[trigger] crate::ordered::with_entry(
                    bids,
                    validator_public_key,
                    after,
                )
            &&& allocations_after == m.allocations
            &&& match r {
                Ok(payouts) => m.ok && payouts@ == m.payouts,
                Err(e) => !m.ok && e == Error::InvalidAmount,
            }
        },
    }
}

/// Reinvests delegator reward by increasing its stake.
pub fn reinvest_delegator_rewards(
    bids: &mut Bids,
    seigniorage_allocations: &mut Vec<SeigniorageAllocation>,
    validator_public_key: PublicKey,
    rewards: &Vec<(PublicKey, U512Ratio)>,
) -> (r: Result<Vec<(U512, URef)>, Error>)
    requires
        old(bids).wf(),
        crate::auction::bids_ok(old(bids)@),
        forall|i: int| 0 <= i < rewards@.len() ==> (#[trigger] rewards@[i]).1.wf(),
    ensures
        final(bids).wf(),
        crate::auction::bids_ok(final(bids)@),
        delegators_rewarded(
            old(bids)@,
            old(seigniorage_allocations)@,
            validator_public_key,
            rewards@,
            final(bids)@,
            final(seigniorage_allocations)@,
            r,
        ),
{
    let ghost before = bids@;
    proof {
        lemma_bids_ok(before, validator_public_key);
    }
    match bids.get_mut(&validator_public_key) {
        Some(bid) => reward_delegators(bid, seigniorage_allocations, validator_public_key, rewards),
        None => {
            // Validator has been slashed
            Ok(Vec::new())
        },
    }
}

/// Delegators of bids are in order, and stay so when one bid is replaced by one of which that holds.
proof fn lemma_bids_ok(bids: Seq<(PublicKey, Bid)>, key: PublicKey)
    requires
        crate::auction::bids_ok(bids),
        crate::ordered::keys_increase(bids),
    ensures
        crate::ordered::value_of(bids, key) matches Some(bid) ==> bid.delegators.wf(),
        forall|after: Bid|
            after.delegators.wf() ==> crate::auction::bids_ok(#[trigger] crate::ordered::with_entry(bids, key, after)),
{
    crate::ordered::lemma_rank(bids, key);
    let k = crate::ordered::rank(bids, key);
    assert forall|after: Bid| after.delegators.wf() implies crate::auction::bids_ok(
        #[trigger] crate::ordered::with_entry(bids, key, after),
    ) by {
        let t = crate::ordered::with_entry(bids, key, after);
        assert forall|i: int| 0 <= i < t.len() implies (#[trigger] t[i]).1.delegators.wf() by {
            if i != k {
                if t.len() == bids.len() || i < k {
                    assert(t[i] == bids[i]);
                } else {
                    assert(t[i] == bids[i - 1]);
                }
            }
        }
    }
}

/// A validator's reward was added to its stake.
pub open spec fn validator_rewarded(
    bids: Seq<(PublicKey, Bid)>,
    allocations: Seq<SeigniorageAllocation>,
    validator_public_key: PublicKey,
    amount: U512,
    bids_after: Seq<(PublicKey, Bid)>,
    allocations_after: Seq<SeigniorageAllocation>,
    r: Result<Option<URef>, Error>,
) -> bool {
    match crate::ordered::value_of(bids, validator_public_key) {
        // Validator has been slashed
        None => {
            &&& r == Ok::<Option<URef>, Error>(None)
            &&& bids_after == bids
            &&& allocations_after == allocations
        },
        Some(bid) => if bid.staked_amount@ + amount@ < crate::uint::limit() {
            &&& r == Ok::<Option<URef>, Error>(Some(bid.bonding_purse))
            &&& bids_after == crate::ordered::with_entry(
                bids,
                validator_public_key,
                Bid { staked_amount: U512::of(bid.staked_amount@ + amount@), ..bid },
            )
            &&& allocations_after == allocations.push(SeigniorageAllocation::Validator { validator_public_key, amount })
        } else {
            &&& r == Err::<Option<URef>, Error>(Error::InvalidAmount)
            &&& bids_after == bids
            &&& allocations_after == allocations
        },
    }
}

/// Reinvests validator reward by increasing its stake and returns its bonding purse.
pub fn reinvest_validator_reward(
    bids: &mut Bids,
    seigniorage_allocations: &mut Vec<SeigniorageAllocation>,
    validator_public_key: PublicKey,
    amount: U512,
) -> (r: Result<Option<URef>, Error>)
    requires
        old(bids).wf(),
        crate::auction::bids_ok(old(bids)@),
    ensures
        final(bids).wf(),
        crate::auction::bids_ok(final(bids)@),
        validator_rewarded(
            old(bids)@,
            old(seigniorage_allocations)@,
            validator_public_key,
            amount,
            final(bids)@,
            final(seigniorage_allocations)@,
            r,
        ),
{
    let ghost before = bids@;
    proof {
        lemma_bids_ok(before, validator_public_key);
    }
    match bids.get_mut(&validator_public_key) {
        Some(bid) => {
            let ghost old_bid = *bid;
            match bid.staked_amount.checked_add(&amount) {
                Some(updated) => {
                    proof {
                        updated.lemma_of();
                    }
                    bid.staked_amount = updated;
                    seigniorage_allocations.push(SeigniorageAllocation::Validator { validator_public_key, amount });
                    Ok(Some(bid.bonding_purse))
                },
                None => {
                    proof {
                        crate::ordered::lemma_same_entry(before, validator_public_key, old_bid);
                    }
                    Err(Error::InvalidAmount)
                },
            }
        },
        None => {
            // Validator has been slashed
            Ok(None)
        },
    }
}

/// The delegators' stakes together.
pub open spec fn total_stake(delegators: Seq<(PublicKey, Delegator)>) -> int
    decreases delegators.len(),
{
    if delegators.len() == 0 {
        0
    } else {
        total_stake(delegators.drop_last()) + delegators.last().1.staked_amount@
    }
}

/// The payouts together.
pub open spec fn total_payout(payouts: Seq<(U512, URef)>) -> int
    decreases payouts.len(),
{
    if payouts.len() == 0 {
        0
    } else {
        total_payout(payouts.drop_last()) + payouts.last().0@
    }
}

/// What is paid out is what the stakes grow by, and each payout has its allocation.
pub proof fn law_payouts_reinvested(m: Rewarding, validator: PublicKey, rewards: Seq<(PublicKey, U512Ratio)>)
    ensures
        ({
            let after = m.with_rewards(validator, rewards);
            &&& total_stake(after.delegators) - total_stake(m.delegators) == total_payout(after.payouts) - total_payout(m.payouts)
            &&& after.allocations.len() - m.allocations.len() == after.payouts.len() - m.payouts.len()
        }),
    decreases rewards.len(),
{
    if rewards.len() > 0 {
        law_payouts_reinvested(m, validator, rewards.drop_last());
        let before = m.with_rewards(validator, rewards.drop_last());
        let reward = rewards.last();
        let after = before.with_reward(validator, reward);
        match crate::ordered::value_of(before.delegators, reward.0) {
            None => {},
            Some(delegator) => {
                let amount = reward.1.trunc();
                if before.ok && delegator.staked_amount@ + amount@ < crate::uint::limit() {
                    let i = crate::ordered::rank(before.delegators, reward.0);
                    crate::ordered::lemma_rank_bounds(before.delegators, reward.0);
                    let sum = delegator.staked_amount@ + amount@;
                    delegator.staked_amount.lemma_bounds();
                    amount.lemma_bounds();
                    U512::lemma_of_number(sum);
                    let updated = Delegator { staked_amount: U512::of(sum), ..delegator };
                    lemma_total_update(before.delegators, i, (reward.0, updated));
                    assert(after.payouts.drop_last() =~= before.payouts);
                }
            },
        }
    }
}

/// Replacing one stake changes the total by the difference.
proof fn lemma_total_update(delegators: Seq<(PublicKey, Delegator)>, i: int, entry: (PublicKey, Delegator))
    requires
        0 <= i < delegators.len(),
    ensures
        total_stake(delegators.update(i, entry)) == total_stake(delegators) - delegators[i].1.staked_amount@
            + entry.1.staked_amount@,
    decreases delegators.len(),
{
    let after = delegators.update(i, entry);
    if i == delegators.len() - 1 {
        assert(after.drop_last() =~= delegators.drop_last());
    } else {
        lemma_total_update(delegators.drop_last(), i, entry);
        assert(after.drop_last() =~= delegators.drop_last().update(i, entry));
    }
}

} // verus!
