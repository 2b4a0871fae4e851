use vstd::prelude::*;
use std::collections::HashMap;
use crate::{AccountId, Balance};

verus! {

broadcast use vstd::std_specs::hash::group_hash_axioms;

/// Failure of a currency operation: the paying account cannot cover the
/// amount (or, for a transfer, could not stay alive while paying it).
#[derive(Clone, Copy, Debug, PartialEq, Eq)]
pub enum LedgerError {
    InsufficientBalance,
}

/// Free and reserved balance of one account.
#[derive(Clone, Copy, Debug, PartialEq, Eq)]
pub struct AccountData {
    pub free: Balance,
    pub reserved: Balance,
}

/// The free balance of `who`; an account without an entry holds nothing.
pub open spec fn free_of(m: Map<AccountId, AccountData>, who: AccountId) -> Balance {
    if m.contains_key(who) {
        m[who].free
    } else {
        0
    }
}

/// The reserved balance of `who`; an account without an entry holds nothing.
pub open spec fn reserved_of(m: Map<AccountId, AccountData>, who: AccountId) -> Balance {
    if m.contains_key(who) {
        m[who].reserved
    } else {
        0
    }
}

/// The smaller of two balances.
pub open spec fn min_bal(a: Balance, b: Balance) -> Balance {
    if a <= b {
        a
    } else {
        b
    }
}

/// The currency ledger the marketplace stakes and pays through: free and
/// reserved balance per account. It stands in for the host ledger's currency
/// subsystem, at exactly the interface the marketplace needs: reserve,
/// unreserve, transfer, balance queries.
pub struct Ledger {
    pub accounts: HashMap<AccountId, AccountData>,
}

impl Ledger {
    /// Every account's free and reserved balance fit in the balance type
    /// together, so moving funds between the two sides of one account can
    /// never overflow.
    pub open spec fn wf(&self) -> bool {
        forall|a: AccountId| #[trigger] self.accounts@.contains_key(a)
            ==> self.accounts@[a].free + self.accounts@[a].reserved <= Balance::MAX
    }

    /// An empty ledger: every account holds nothing.
    pub fn new() -> (l: Ledger)
        ensures
            l.wf(),
            forall|a: AccountId| free_of(#[trigger] l.accounts@, a) == 0
                && reserved_of(l.accounts@, a) == 0,
    {
        Ledger { accounts: HashMap::new() }
    }

    /// Endow an account for genesis: set its free balance, clearing any
    /// reserve.
    pub fn set_balance(&mut self, who: AccountId, amount: Balance)
        requires
            old(self).wf(),
        ensures
            final(self).wf(),
            final(self).accounts@ == old(self).accounts@.insert(
                who,
                (AccountData { free: amount, reserved: 0 }),
            ),
            free_of(final(self).accounts@, who) == amount,
            reserved_of(final(self).accounts@, who) == 0,
            forall|a: AccountId| a != who ==> #[trigger] free_of(final(self).accounts@, a)
                == free_of(old(self).accounts@, a) && reserved_of(final(self).accounts@, a)
                == reserved_of(old(self).accounts@, a),
    {
        self.accounts.insert(who, AccountData { free: amount, reserved: 0 });
    }

    /// The free balance of an account.
    pub fn free_balance(&self, who: AccountId) -> (r: Balance)
        ensures
            r == free_of(self.accounts@, who),
    {
        match self.accounts.get(&who) {
            Some(d) => d.free,
            None => 0,
        }
    }

    /// The reserved balance of an account.
    pub fn reserved_balance(&self, who: AccountId) -> (r: Balance)
        ensures
            r == reserved_of(self.accounts@, who),
    {
        match self.accounts.get(&who) {
            Some(d) => d.reserved,
            None => 0,
        }
    }

    /// Move `amount` of `who`'s balance from free to reserved. Fails, and
    /// changes nothing, exactly when the free balance cannot cover the
    /// amount.
    pub fn reserve(&mut self, who: AccountId, amount: Balance) -> (r: Result<(), LedgerError>)
        requires
            old(self).wf(),
        ensures
            final(self).wf(),
            r is Ok <==> free_of(old(self).accounts@, who) >= amount,
            r is Err ==> *final(self) == *old(self) && r == Err::<(), LedgerError>(
                LedgerError::InsufficientBalance,
            ),
            r is Ok ==> final(self).accounts@ == old(self).accounts@.insert(
                who,
                (AccountData {
                    free: (free_of(old(self).accounts@, who) - amount) as Balance,
                    reserved: (reserved_of(old(self).accounts@, who) + amount) as Balance,
                }),
            ),
            r is Ok ==> free_of(final(self).accounts@, who) == free_of(old(self).accounts@, who)
                - amount && reserved_of(final(self).accounts@, who) == reserved_of(
                old(self).accounts@,
                who,
            ) + amount,
            forall|a: AccountId| a != who ==> #[trigger] free_of(final(self).accounts@, a)
                == free_of(old(self).accounts@, a) && reserved_of(final(self).accounts@, a)
                == reserved_of(old(self).accounts@, a),
    {
        let (free, reserved): (Balance, Balance) = match self.accounts.get(&who) {
            Some(d) => (d.free, d.reserved),
            None => (0, 0),
        };
        if free >= amount {
            self.accounts.insert(
                who,
                AccountData { free: free - amount, reserved: reserved + amount },
            );
            Ok(())
        } else {
            Err(LedgerError::InsufficientBalance)
        }
    }

    /// Move back to free as much of `amount` as `who` actually has reserved:
    /// best effort, never fails.
    pub fn unreserve(&mut self, who: AccountId, amount: Balance)
        requires
            old(self).wf(),
        ensures
            final(self).wf(),
            final(self).accounts@ == old(self).accounts@.insert(
                who,
                (AccountData {
                    free: (free_of(old(self).accounts@, who) + min_bal(
                        amount,
                        reserved_of(old(self).accounts@, who),
                    )) as Balance,
                    reserved: (reserved_of(old(self).accounts@, who) - min_bal(
                        amount,
                        reserved_of(old(self).accounts@, who),
                    )) as Balance,
                }),
            ),
            free_of(final(self).accounts@, who) == free_of(old(self).accounts@, who) + min_bal(
                amount,
                reserved_of(old(self).accounts@, who),
            ),
            reserved_of(final(self).accounts@, who) == reserved_of(old(self).accounts@, who)
                - min_bal(amount, reserved_of(old(self).accounts@, who)),
            forall|a: AccountId| a != who ==> #[trigger] free_of(final(self).accounts@, a)
                == free_of(old(self).accounts@, a) && reserved_of(final(self).accounts@, a)
                == reserved_of(old(self).accounts@, a),
    {
        let (free, reserved): (Balance, Balance) = match self.accounts.get(&who) {
            Some(d) => (d.free, d.reserved),
            None => (0, 0),
        };
        let moved: Balance = if amount <= reserved {
            amount
        } else {
            reserved
        };
        self.accounts.insert(who, AccountData { free: free + moved, reserved: reserved - moved });
    }

    /// Pay `amount` of free balance from one account to another. Fails, and
    /// changes nothing, when the payer cannot cover the amount, or
    /// (`keep_alive`) would be left with no free balance at all, or the
    /// receiving account could not hold the sum within the balance type.
    /// A transfer to oneself succeeds without effect whenever the balance
    /// covers it.
    pub fn transfer(
        &mut self,
        from: AccountId,
        to: AccountId,
        amount: Balance,
        keep_alive: bool,
    ) -> (r: Result<(), LedgerError>)
        requires
            old(self).wf(),
        ensures
            final(self).wf(),
            r is Ok <==> free_of(old(self).accounts@, from) >= amount && (keep_alive
                ==> free_of(old(self).accounts@, from) - amount > 0) && (from != to
                ==> free_of(old(self).accounts@, to) + reserved_of(old(self).accounts@, to)
                    + amount <= Balance::MAX),
            r is Err ==> *final(self) == *old(self) && r == Err::<(), LedgerError>(
                LedgerError::InsufficientBalance,
            ),
            r is Ok && from != to ==> final(self).accounts@ == old(self).accounts@.insert(
                from,
                (AccountData {
                    free: (free_of(old(self).accounts@, from) - amount) as Balance,
                    reserved: reserved_of(old(self).accounts@, from),
                }),
            ).insert(
                to,
                (AccountData {
                    free: (free_of(old(self).accounts@, to) + amount) as Balance,
                    reserved: reserved_of(old(self).accounts@, to),
                }),
            ),
            r is Ok && from != to ==> free_of(final(self).accounts@, from) == free_of(
                old(self).accounts@,
                from,
            ) - amount && free_of(final(self).accounts@, to) == free_of(old(self).accounts@, to)
                + amount,
            r is Ok && from == to ==> *final(self) == *old(self),
            reserved_of(final(self).accounts@, from) == reserved_of(old(self).accounts@, from),
            reserved_of(final(self).accounts@, to) == reserved_of(old(self).accounts@, to),
            forall|a: AccountId| a != from && a != to ==> #[trigger] free_of(
                final(self).accounts@,
                a,
            ) == free_of(old(self).accounts@, a) && reserved_of(final(self).accounts@, a)
                == reserved_of(old(self).accounts@, a),
    {
        let (from_free, from_reserved): (Balance, Balance) = match self.accounts.get(&from) {
            Some(d) => (d.free, d.reserved),
            None => (0, 0),
        };
        if from_free < amount {
            return Err(LedgerError::InsufficientBalance);
        }
        if keep_alive && from_free - amount == 0 {
            return Err(LedgerError::InsufficientBalance);
        }
        if from == to {
            return Ok(());
        }
        let (to_free, to_reserved): (Balance, Balance) = match self.accounts.get(&to) {
            Some(d) => (d.free, d.reserved),
            None => (0, 0),
        };
        if (to_free as u128) + (to_reserved as u128) + (amount as u128) > Balance::MAX as u128 {
            return Err(LedgerError::InsufficientBalance);
        }
        self.accounts.insert(from, AccountData { free: from_free - amount, reserved: from_reserved });
        self.accounts.insert(to, AccountData { free: to_free + amount, reserved: to_reserved });
        Ok(())
    }
}

} // verus!
