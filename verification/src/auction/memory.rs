//! Surroundings of the auction that are held in memory.

use crate::auction::{AuctionProvider, AuctionValue, Error};
use crate::collections::VecMap;
use crate::keys::{AccountHash, Key, URef};
use crate::uint::U512;
use vstd::prelude::*;

verus! {

/// Named keys, stored values and balances.
pub struct InMemoryProvider {
    caller: AccountHash,
    keys: Vec<(String, Key)>,
    values: VecMap<URef, AuctionValue>,
    balances: VecMap<URef, U512>,
    transfers: Vec<(URef, AccountHash, U512)>,
}

/// Named keys, stored values and balances, and the transfers that were made.
#[verifier::ext_equal]
pub ghost struct MemoryModel {
    pub caller: AccountHash,
    pub keys: Seq<(Seq<char>, Key)>,
    pub values: Map<URef, AuctionValue>,
    pub balances: Map<URef, U512>,
    pub transfers: Seq<(URef, AccountHash, U512)>,
}

/// The latest key with the given name.
pub open spec fn latest_key(keys: Seq<(Seq<char>, Key)>, name: Seq<char>) -> Option<Key>
    decreases keys.len(),
{
    if keys.len() == 0 {
        None
    } else if keys.last().0 == name {
        Some(keys.last().1)
    } else {
        latest_key(keys.drop_last(), name)
    }
}

/// The names and their keys.
pub open spec fn keys_view(keys: Seq<(String, Key)>) -> Seq<(Seq<char>, Key)> {
    keys.map_values(|e: (String, Key)| (e.0@, e.1))
}

impl InMemoryProvider {
    /// Creates surroundings without contents.
    pub fn new(caller: AccountHash) -> (r: InMemoryProvider)
        ensures
            r.wf(),
            r.state() == (MemoryModel {
                caller,
                keys: Seq::empty(),
                values: Map::empty(),
                balances: Map::empty(),
                transfers: Seq::empty(),
            }),
    {
        let r = InMemoryProvider {
            caller,
            keys: Vec::new(),
            values: VecMap::new(),
            balances: VecMap::new(),
            transfers: Vec::new(),
        };
        assert(keys_view(r.keys@) =~= Seq::empty());
        r
    }

    /// Names a key.
    pub fn put_key(&mut self, name: String, key: Key)
        requires
            old(self).wf(),
        ensures
            final(self).wf(),
            final(self).state() == (MemoryModel { keys: old(self).state().keys.push((name@, key)), ..old(self).state() }),
    {
        self.keys.push((name, key));
        assert(keys_view(self.keys@) =~= keys_view(old(self).keys@).push((name@, key)));
    }

    /// Puts an amount in a purse.
    pub fn set_balance(&mut self, purse: URef, amount: U512)
        requires
            old(self).wf(),
        ensures
            final(self).wf(),
            final(self).state() == (MemoryModel {
                balances: old(self).state().balances.insert(purse, amount),
                ..old(self).state()
            }),
    {
        let _ = self.balances.insert(purse, amount);
    }

    /// Returns the transfers that were made, in order.
    pub fn transfers(&self) -> (r: &Vec<(URef, AccountHash, U512)>)
        ensures
            r@ == self.state().transfers,
    {
        &self.transfers
    }
}

impl AuctionProvider for InMemoryProvider {
    type State = MemoryModel;

    closed spec fn state(&self) -> MemoryModel {
        MemoryModel {
            caller: self.caller,
            keys: keys_view(self.keys@),
            values: self.values@,
            balances: self.balances@,
            transfers: self.transfers@,
        }
    }

    closed spec fn wf(&self) -> bool {
        &&& self.values.wf()
        &&& self.balances.wf()
        &&& forall|u: URef| #[trigger] self.values@.contains_key(u) ==> self.values@[u].wf()
    }

    open spec fn caller_in(s: MemoryModel) -> AccountHash {
        s.caller
    }

    open spec fn key_in(s: MemoryModel, name: Seq<char>) -> Option<Key> {
        latest_key(s.keys, name)
    }

    open spec fn value_in(s: MemoryModel, uref: URef) -> Result<Option<AuctionValue>, Error> {
        if s.values.contains_key(uref) {
            Ok(Some(s.values[uref]))
        } else {
            Ok(None)
        }
    }

    open spec fn written(s: MemoryModel, uref: URef, value: AuctionValue) -> Result<MemoryModel, Error> {
        Ok(MemoryModel { values: s.values.insert(uref, value), ..s })
    }

    open spec fn balance_in(s: MemoryModel, purse: URef) -> Result<Option<U512>, Error> {
        if s.balances.contains_key(purse) {
            Ok(Some(s.balances[purse]))
        } else {
            Ok(None)
        }
    }

    open spec fn transferred(s: MemoryModel, source: URef, target: AccountHash, amount: U512) -> Option<MemoryModel> {
        if s.balances.contains_key(source) && s.balances[source]@ >= amount@ {
            Some(
                MemoryModel {
                    balances: s.balances.insert(source, U512::of(s.balances[source]@ - amount@)),
                    transfers: s.transfers.push((source, target, amount)),
                    ..s
                },
            )
        } else {
            None
        }
    }

    proof fn lemma_written(s: MemoryModel, uref: URef, value: AuctionValue) {
    }

    fn get_caller(&self) -> (r: AccountHash) {
        self.caller
    }

    fn get_key(&self, name: &str) -> (r: Option<Key>) {
        let wanted = name.to_owned();
        let ghost keys = keys_view(self.keys@);
        let mut i = self.keys.len();
        assert(keys.take(i as int) =~= keys);
        while i > 0
            invariant
                i <= self.keys@.len(),
                keys == keys_view(self.keys@),
                wanted@ == name@,
                latest_key(keys, name@) == latest_key(keys.take(i as int), name@),
            decreases i,
        {
            i -= 1;
            proof {
                assert(keys.take(i + 1).last() == keys[i as int]);
                assert(keys.take(i + 1).drop_last() =~= keys.take(i as int));
            }
            if self.keys[i].0 == wanted {
                return Some(self.keys[i].1);
            }
        }
        None
    }

    fn read(&self, uref: URef) -> (r: Result<Option<AuctionValue>, Error>) {
        match self.values.get(&uref) {
            Some(value) => Ok(Some(value.share())),
            None => Ok(None),
        }
    }

    fn write(&mut self, uref: URef, value: AuctionValue) -> (r: Result<(), Error>) {
        let _ = self.values.insert(uref, value);
        Ok(())
    }

    fn get_balance(&self, purse: URef) -> (r: Result<Option<U512>, Error>) {
        match self.balances.get(&purse) {
            Some(amount) => Ok(Some(*amount)),
            None => Ok(None),
        }
    }

    fn transfer_purse_to_account(&mut self, source: URef, target: AccountHash, amount: U512) -> (r: bool) {
        let balance = match self.balances.get(&source) {
            Some(balance) => *balance,
            None => {
                return false;
            },
        };
        match balance.checked_sub(&amount) {
            Some(rest) => {
                proof {
                    rest.lemma_of();
                }
                let _ = self.balances.insert(source, rest);
                self.transfers.push((source, target, amount));
                true
            },
            None => false,
        }
    }
}

} // verus!
