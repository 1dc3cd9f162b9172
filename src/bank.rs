//! Balances per account and currency.
use vstd::prelude::*;
use crate::codec::AccountAddress;
use crate::types::FatalError;

verus! {

/// One balance: an account, a currency ticker and an amount.
#[derive(Clone, Debug)]
pub struct BalanceEntry {
    pub address: AccountAddress,
    pub ticker: String,
    pub amount: u128,
}

/// The key of a balance: an account and a ticker.
pub type BalanceKey = (u128, Seq<char>);

pub open spec fn entry_key(e: BalanceEntry) -> BalanceKey {
    (e.address.0, e.ticker@)
}

/// The amount held under `k` in `m`, zero where there is no entry.
pub open spec fn amount_or_zero(m: Map<BalanceKey, u128>, k: BalanceKey) -> nat {
    if m.contains_key(k) {
        m[k] as nat
    } else {
        0
    }
}

/// The ledger of balances. An entry is created at zero the first time a key is
/// touched; no amount is ever below zero.
pub struct Bank {
    entries: Vec<BalanceEntry>,
    model: Ghost<Map<BalanceKey, u128>>,
}

impl View for Bank {
    type V = Map<BalanceKey, u128>;

    closed spec fn view(&self) -> Map<BalanceKey, u128> {
        self.model@
    }
}

impl Bank {
    pub closed spec fn wf(&self) -> bool {
        &&& forall|i: int|
            0 <= i < self.entries@.len() ==> self.model@.contains_key(
                entry_key(#[trigger] self.entries@[i]),
            ) && self.model@[entry_key(self.entries@[i])] == self.entries@[i].amount
        &&& forall|k: BalanceKey|
            #[trigger] self.model@.contains_key(k) ==> exists|i: int|
                0 <= i < self.entries@.len() && entry_key(#[trigger] self.entries@[i]) == k
        &&& forall|i: int, j: int|
            0 <= i < j < self.entries@.len() ==> entry_key(#[trigger] self.entries@[i])
                != entry_key(#[trigger] self.entries@[j])
    }

    /// A ledger with no balances.
    pub fn new() -> (r: Bank)
        ensures
            r.wf(),
            r@ == Map::<BalanceKey, u128>::empty(),
    {
        Bank { entries: Vec::new(), model: Ghost(Map::empty()) }
    }

    fn find(&self, address: AccountAddress, ticker: &String) -> (r: Option<usize>)
        requires
            self.wf(),
        ensures
            r matches Some(i) ==> i < self.entries@.len() && entry_key(self.entries@[i as int]) == (
            address.0, ticker@),
            r is None ==> !self@.contains_key((address.0, ticker@)),
    {
        let mut i: usize = 0;
        while i < self.entries.len()
            invariant
                i <= self.entries@.len(),
                self.wf(),
                forall|j: int| 0 <= j < i ==> entry_key(#[trigger] self.entries@[j]) != (address.0, ticker@),
            decreases self.entries@.len() - i,
        {
            if self.entries[i].address == address && self.entries[i].ticker == *ticker {
                return Some(i);
            }
            i = i + 1;
        }
        None
    }

    /// The balance of `address` in `ticker`, if that entry exists.
    pub fn get_balance(&self, address: AccountAddress, ticker: &str) -> (r: Option<u128>)
        requires
            self.wf(),
        ensures
            r == (if self@.contains_key((address.0, ticker@)) {
                Some(self@[(address.0, ticker@)])
            } else {
                None::<u128>
            }),
    {
        let t = ticker.to_owned();
        match self.find(address, &t) {
            Some(i) => Some(self.entries[i].amount),
            None => None,
        }
    }

    /// Puts `amount` under the key, creating the entry where it is missing.
    fn set(&mut self, address: AccountAddress, ticker: String, amount: u128)
        requires
            old(self).wf(),
        ensures
            final(self).wf(),
            final(self)@ == old(self)@.insert((address.0, ticker@), amount),
    {
        let ghost k = (address.0, ticker@);
        match self.find(address, &ticker) {
            Some(i) => {
                self.entries.set(i, BalanceEntry { address, ticker, amount });
                self.model = Ghost(self.model@.insert(k, amount));
                assert forall|j: int, l: int|
                    0 <= j < l < self.entries@.len() implies entry_key(#[trigger] self.entries@[j])
                    != entry_key(#[trigger] self.entries@[l]) by {
                    assert(entry_key(old(self).entries@[j]) != entry_key(old(self).entries@[l]));
                }
                assert forall|k2: BalanceKey| #[trigger] self.model@.contains_key(k2) implies exists|
                    j: int,
                | 0 <= j < self.entries@.len() && entry_key(#[trigger] self.entries@[j]) == k2 by {
                    if k2 != k {
                        let j = choose|j: int|
                            0 <= j < old(self).entries@.len() && entry_key(
                                #[trigger] old(self).entries@[j],
                            ) == k2;
                        assert(entry_key(self.entries@[j]) == k2);
                    } else {
                        assert(entry_key(self.entries@[i as int]) == k2);
                    }
                }
                assert forall|j: int| 0 <= j < self.entries@.len() implies self.model@.contains_key(
                    entry_key(#[trigger] self.entries@[j]),
                ) && self.model@[entry_key(self.entries@[j])] == self.entries@[j].amount by {
                    if j != i {
                        assert(entry_key(old(self).entries@[j]) != entry_key(old(self).entries@[i as int]));
                    }
                }
            },
            None => {
                self.entries.push(BalanceEntry { address, ticker, amount });
                self.model = Ghost(self.model@.insert(k, amount));
                let ghost n = old(self).entries@.len() as int;
                assert forall|j: int, l: int|
                    0 <= j < l < self.entries@.len() implies entry_key(#[trigger] self.entries@[j])
                    != entry_key(#[trigger] self.entries@[l]) by {
                    if l == n {
                        assert(old(self).model@.contains_key(entry_key(old(self).entries@[j])));
                    } else {
                        assert(entry_key(old(self).entries@[j]) != entry_key(old(self).entries@[l]));
                    }
                }
                assert forall|k2: BalanceKey| #[trigger] self.model@.contains_key(k2) implies exists|
                    j: int,
                | 0 <= j < self.entries@.len() && entry_key(#[trigger] self.entries@[j]) == k2 by {
                    if k2 != k {
                        let j = choose|j: int|
                            0 <= j < old(self).entries@.len() && entry_key(
                                #[trigger] old(self).entries@[j],
                            ) == k2;
                        assert(entry_key(self.entries@[j]) == k2);
                    } else {
                        assert(entry_key(self.entries@[n]) == k2);
                    }
                }
                assert forall|j: int| 0 <= j < self.entries@.len() implies self.model@.contains_key(
                    entry_key(#[trigger] self.entries@[j]),
                ) && self.model@[entry_key(self.entries@[j])] == self.entries@[j].amount by {
                    if j != n {
                        assert(old(self).model@.contains_key(entry_key(old(self).entries@[j])));
                    }
                }
            },
        }
    }

    /// Debits `amount` from the paying account: the entry (zero where missing)
    /// must hold at least `amount`. Where it does not, nothing changes and the
    /// fatal underflow is returned; the amount is never clamped.
    pub fn deposit(&mut self, address: AccountAddress, ticker: &str, amount: u128) -> (r: Result<
        (),
        FatalError,
    >)
        requires
            old(self).wf(),
        ensures
            final(self).wf(),
            ({
                let k = (address.0, ticker@);
                let cur = amount_or_zero(old(self)@, k);
                &&& cur >= amount ==> r is Ok && final(self)@ == old(self)@.insert(
                    k,
                    (cur - amount) as u128,
                )
                &&& cur < amount ==> r == Err::<(), FatalError>(FatalError::BalanceUnderflow)
                    && final(self)@ == old(self)@
            }),
    {
        let t = ticker.to_owned();
        let cur: u128 = match self.find(address, &t) {
            Some(i) => self.entries[i].amount,
            None => 0,
        };
        if cur < amount {
            return Err(FatalError::BalanceUnderflow);
        }
        self.set(address, t, cur - amount);
        Ok(())
    }

    /// Credits `amount` to the receiving account, creating the entry at zero
    /// where it is missing. A credit past the largest amount changes nothing
    /// and returns the fatal overflow.
    pub fn withdraw(&mut self, address: AccountAddress, ticker: &str, amount: u128) -> (r: Result<
        (),
        FatalError,
    >)
        requires
            old(self).wf(),
        ensures
            final(self).wf(),
            ({
                let k = (address.0, ticker@);
                let cur = amount_or_zero(old(self)@, k);
                &&& cur + amount <= u128::MAX ==> r is Ok && final(self)@ == old(self)@.insert(
                    k,
                    (cur + amount) as u128,
                )
                &&& cur + amount > u128::MAX ==> r == Err::<(), FatalError>(FatalError::BalanceOverflow)
                    && final(self)@ == old(self)@
            }),
    {
        let t = ticker.to_owned();
        let cur: u128 = match self.find(address, &t) {
            Some(i) => self.entries[i].amount,
            None => 0,
        };
        match cur.checked_add(amount) {
            Some(v) => {
                self.set(address, t, v);
                Ok(())
            },
            None => Err(FatalError::BalanceOverflow),
        }
    }
}

} // verus!
