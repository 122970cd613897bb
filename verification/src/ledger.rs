//! An in-process token ledger: balances per owner, a running total supply,
//! and a log of movement notifications.
//!
//! This is the token-ledger port the pool engine settles against.  Every
//! call either succeeds with the exact balance change stated in its
//! contract or fails leaving the ledger untouched, so an enclosing
//! settlement can validate a whole sequence of ledger calls before
//! committing any of them.

use vstd::prelude::*;
use std::collections::HashMap;
use crate::pair::Error;

verus! {

broadcast use vstd::std_specs::hash::group_hash_axioms;

/// Notification of one balance movement: `from == None` marks an issuance,
/// `to == None` a destruction.
pub struct TransferEvent {
    pub from: Option<u128>,
    pub to: Option<u128>,
    pub value: u128,
}

/// The balance an owner holds under a balance map; owners without an entry
/// hold zero.
pub open spec fn bal_in(m: Map<u128, u128>, owner: u128) -> u128 {
    if m.contains_key(owner) {
        m[owner]
    } else {
        0
    }
}

/// The balance map after `amount` is added to `owner`'s balance.
pub open spec fn credited(m: Map<u128, u128>, owner: u128, amount: u128) -> Map<u128, u128> {
    m.insert(owner, (bal_in(m, owner) + amount) as u128)
}

/// The balance map after `amount` is taken from `owner`'s balance.
pub open spec fn debited(m: Map<u128, u128>, owner: u128, amount: u128) -> Map<u128, u128> {
    m.insert(owner, (bal_in(m, owner) - amount) as u128)
}

/// A fungible-token ledger: who owns how much, how much exists in total,
/// and the movements that happened, in order.
pub struct TokenLedger {
    balances: HashMap<u128, u128>,
    total: u128,
    events: Vec<TransferEvent>,
}

impl TokenLedger {
    /// The balance map this ledger records.
    pub closed spec fn map_spec(&self) -> Map<u128, u128> {
        self.balances@
    }

    /// The balance `owner` holds.
    pub open spec fn bal(&self, owner: u128) -> u128 {
        bal_in(self.map_spec(), owner)
    }

    /// The total outstanding supply.
    pub closed spec fn total_spec(&self) -> u128 {
        self.total
    }

    /// The movement log.
    pub closed spec fn events_spec(&self) -> Seq<TransferEvent> {
        self.events@
    }

    /// An empty ledger: no owners, no supply, no history.
    pub fn new() -> (l: Self)
        ensures
            l.map_spec() == Map::<u128, u128>::empty(),
            l.total_spec() == 0,
            l.events_spec() == Seq::<TransferEvent>::empty(),
    {
        TokenLedger { balances: HashMap::new(), total: 0, events: Vec::new() }
    }

    /// The balance `owner` holds; zero for unknown owners.
    pub fn balance_of(&self, owner: u128) -> (r: u128)
        ensures
            r == self.bal(owner),
    {
        match self.balances.get(&owner) {
            Some(b) => *b,
            None => 0,
        }
    }

    /// The total outstanding supply.
    pub fn total_supply(&self) -> (r: u128)
        ensures
            r == self.total_spec(),
    {
        self.total
    }

    /// The movements recorded so far, oldest first.
    pub fn events(&self) -> (r: &Vec<TransferEvent>)
        ensures
            r@ == self.events_spec(),
    {
        &self.events
    }

    /// Issues `amount` new units to `to`; fails with `MintFailed`, changing
    /// nothing, exactly when the total supply or the recipient's balance
    /// would no longer be representable.
    pub fn mint(&mut self, to: u128, amount: u128) -> (r: Result<(), Error>)
        ensures
            r.is_ok() <==> old(self).total_spec() + amount <= u128::MAX && old(self).bal(to)
                + amount <= u128::MAX,
            r.is_ok() ==> final(self).map_spec() == credited(old(self).map_spec(), to, amount)
                && final(self).total_spec() == old(self).total_spec() + amount
                && final(self).events_spec() == old(self).events_spec().push(
                (TransferEvent { from: None, to: Some(to), value: amount }),
            ),
            r.is_err() ==> *final(self) == *old(self) && r == Err::<(), Error>(Error::MintFailed),
    {
        let b = self.balance_of(to);
        if amount > u128::MAX - self.total || amount > u128::MAX - b {
            return Err(Error::MintFailed);
        }
        self.balances.insert(to, b + amount);
        self.total = self.total + amount;
        self.events.push(TransferEvent { from: None, to: Some(to), value: amount });
        Ok(())
    }

    /// Destroys `amount` units held by `from`; fails with `BurnFailed`,
    /// changing nothing, exactly when `from`'s balance or the total supply
    /// is below `amount`.
    pub fn burn(&mut self, from: u128, amount: u128) -> (r: Result<(), Error>)
        ensures
            r.is_ok() <==> old(self).bal(from) >= amount && old(self).total_spec() >= amount,
            r.is_ok() ==> final(self).map_spec() == debited(old(self).map_spec(), from, amount)
                && final(self).total_spec() == old(self).total_spec() - amount
                && final(self).events_spec() == old(self).events_spec().push(
                (TransferEvent { from: Some(from), to: None, value: amount }),
            ),
            r.is_err() ==> *final(self) == *old(self) && r == Err::<(), Error>(Error::BurnFailed),
    {
        let b = self.balance_of(from);
        if b < amount || self.total < amount {
            return Err(Error::BurnFailed);
        }
        self.balances.insert(from, b - amount);
        self.total = self.total - amount;
        self.events.push(TransferEvent { from: Some(from), to: None, value: amount });
        Ok(())
    }

    /// Moves `amount` from `from` to `to`; fails with `TransferFailed`,
    /// changing nothing, exactly when `from`'s balance is below `amount` or
    /// the recipient's balance would no longer be representable.
    pub fn transfer_from(&mut self, from: u128, to: u128, amount: u128) -> (r: Result<(), Error>)
        ensures
            r.is_ok() <==> old(self).bal(from) >= amount && (from == to || old(self).bal(to)
                + amount <= u128::MAX),
            r.is_ok() ==> final(self).map_spec() == credited(
                debited(old(self).map_spec(), from, amount),
                to,
                amount,
            ) && final(self).total_spec() == old(self).total_spec() && final(self).events_spec()
                == old(self).events_spec().push(
                (TransferEvent { from: Some(from), to: Some(to), value: amount }),
            ),
            r.is_err() ==> *final(self) == *old(self) && r == Err::<(), Error>(
                Error::TransferFailed,
            ),
    {
        let bf = self.balance_of(from);
        if bf < amount {
            return Err(Error::TransferFailed);
        }
        if from != to {
            let bt = self.balance_of(to);
            if amount > u128::MAX - bt {
                return Err(Error::TransferFailed);
            }
        }
        self.balances.insert(from, bf - amount);
        let bt = self.balance_of(to);
        self.balances.insert(to, bt + amount);
        self.events.push(TransferEvent { from: Some(from), to: Some(to), value: amount });
        Ok(())
    }
}

} // verus!
