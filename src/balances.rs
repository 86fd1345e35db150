use vstd::prelude::*;

use std::collections::BTreeMap;

use crate::types::{AccountId, Balance, Error};

verus! {

/// The two parts of an account's balance.
#[derive(Clone, Copy, Debug, PartialEq, Eq, Structural)]
pub struct AccountData {
    /// What the account can spend or reserve.
    pub free: Balance,
    /// What is set aside and cannot be spent until it is released.
    pub reserved: Balance,
}

/// An account that was never touched holds nothing.
pub open spec fn account_of(accounts: Map<AccountId, AccountData>, who: AccountId) -> AccountData {
    if accounts.contains_key(who) {
        accounts[who]
    } else {
        AccountData { free: 0, reserved: 0 }
    }
}

pub open spec fn free_of(accounts: Map<AccountId, AccountData>, who: AccountId) -> Balance {
    account_of(accounts, who).free
}

pub open spec fn reserved_of(accounts: Map<AccountId, AccountData>, who: AccountId) -> Balance {
    account_of(accounts, who).reserved
}

/// Why reserving `amount` on `who` fails, if it does.
pub open spec fn reserve_error(
    accounts: Map<AccountId, AccountData>,
    who: AccountId,
    amount: Balance,
) -> Option<Error> {
    let a = account_of(accounts, who);
    if a.free < amount {
        Some(Error::InsufficientBalance)
    } else if a.reserved + amount > u128::MAX {
        Some(Error::Overflow)
    } else {
        None
    }
}

/// The accounts once `amount` has moved from the free to the reserved balance of `who`.
pub open spec fn after_reserve(
    accounts: Map<AccountId, AccountData>,
    who: AccountId,
    amount: Balance,
) -> Map<AccountId, AccountData> {
    let a = account_of(accounts, who);
    accounts.insert(
        who,
        AccountData { free: (a.free - amount) as Balance, reserved: (a.reserved + amount) as Balance },
    )
}

/// The part of a release of `amount` that is actually reserved on `who`.
pub open spec fn releasable(
    accounts: Map<AccountId, AccountData>,
    who: AccountId,
    amount: Balance,
) -> Balance {
    let a = account_of(accounts, who);
    if amount <= a.reserved {
        amount
    } else {
        a.reserved
    }
}

/// The accounts once up to `amount` of the reserved balance of `who` has been released;
/// the free balance saturates at the largest value.
pub open spec fn after_unreserve(
    accounts: Map<AccountId, AccountData>,
    who: AccountId,
    amount: Balance,
) -> Map<AccountId, AccountData> {
    let a = account_of(accounts, who);
    let actual = releasable(accounts, who, amount);
    let free = if a.free + actual > u128::MAX {
        u128::MAX
    } else {
        (a.free + actual) as Balance
    };
    accounts.insert(who, AccountData { free, reserved: (a.reserved - actual) as Balance })
}

/// An in-memory balance ledger that can reserve and release funds on an account.
pub struct Balances {
    accounts: BTreeMap<AccountId, AccountData>,
}

impl View for Balances {
    type V = Map<AccountId, AccountData>;

    closed spec fn view(&self) -> Map<AccountId, AccountData> {
        self.accounts@
    }
}

impl Balances {
    pub fn new() -> (r: Balances)
        ensures
            r@ == Map::<AccountId, AccountData>::empty(),
    {
        Balances { accounts: BTreeMap::new() }
    }

    fn account(&self, who: AccountId) -> (r: AccountData)
        ensures
            r == account_of(self@, who),
    {
        match self.accounts.get(&who) {
            Some(a) => *a,
            None => AccountData { free: 0, reserved: 0 },
        }
    }

    pub fn free_balance(&self, who: AccountId) -> (r: Balance)
        ensures
            r == free_of(self@, who),
    {
        self.account(who).free
    }

    pub fn reserved_balance(&self, who: AccountId) -> (r: Balance)
        ensures
            r == reserved_of(self@, who),
    {
        self.account(who).reserved
    }

    /// Sets the free balance of `who`, leaving its reserved balance as it is.
    pub fn make_free_balance_be(&mut self, who: AccountId, amount: Balance)
        ensures
            final(self)@ == old(self)@.insert(
                who,
                AccountData { free: amount, reserved: reserved_of(old(self)@, who) },
            ),
    {
        let a = self.account(who);
        self.accounts.insert(who, AccountData { free: amount, reserved: a.reserved });
    }

    /// Moves `amount` from the free to the reserved balance of `who`.
    pub fn reserve(&mut self, who: AccountId, amount: Balance) -> (r: Result<(), Error>)
        ensures
            match reserve_error(old(self)@, who, amount) {
                Some(e) => r == Err::<(), Error>(e) && final(self)@ == old(self)@,
                None => r == Ok::<(), Error>(()) && final(self)@ == after_reserve(
                    old(self)@,
                    who,
                    amount,
                ),
            },
    {
        let a = self.account(who);
        if a.free < amount {
            return Err(Error::InsufficientBalance);
        }
        match a.reserved.checked_add(amount) {
            None => Err(Error::Overflow),
            Some(reserved) => {
                self.accounts.insert(who, AccountData { free: a.free - amount, reserved });
                Ok(())
            },
        }
    }

    /// Releases up to `amount` of the reserved balance of `who` back to its free balance,
    /// and returns the part of `amount` that was not reserved.
    pub fn unreserve(&mut self, who: AccountId, amount: Balance) -> (r: Balance)
        ensures
            final(self)@ == after_unreserve(old(self)@, who, amount),
            r == amount - releasable(old(self)@, who, amount),
    {
        let a = self.account(who);
        let actual = if amount <= a.reserved {
            amount
        } else {
            a.reserved
        };
        let free = a.free.saturating_add(actual);
        self.accounts.insert(who, AccountData { free, reserved: a.reserved - actual });
        amount - actual
    }
}

} // verus!
