//! Events, accounts and the records kept of disputable deposits.

use crate::amount::{in_range, Amount};
use vstd::prelude::*;

verus! {

/// Identifies a client account.
pub type ClientId = u16;

/// Identifies a deposit or a withdrawal.
pub type TransactionId = u32;

/// The kind of an event.
#[derive(Clone, Copy, Debug, PartialEq, Eq, Structural)]
pub enum TransactionType {
    Deposit,
    Withdrawal,
    Dispute,
    Resolve,
    Chargeback,
}

/// One decoded event. Deposits and withdrawals carry an amount; an event of
/// those kinds without one is malformed and ignored.
#[derive(Clone, Copy, Debug, PartialEq, Eq)]
pub struct TransactionRecord {
    pub tx_type: TransactionType,
    pub client: ClientId,
    pub tx: TransactionId,
    pub amount: Option<Amount>,
}

/// Abstract state of a stored transaction.
pub struct StoredView {
    pub client_id: ClientId,
    pub tx_type: TransactionType,
    pub amount: int,
    pub disputed: bool,
}

/// A transaction kept for dispute tracking.
#[derive(Clone, Copy, Debug)]
pub struct StoredTransaction {
    pub client_id: ClientId,
    pub tx_type: TransactionType,
    pub amount: Amount,
    pub disputed: bool,
}

impl View for StoredTransaction {
    type V = StoredView;

    open spec fn view(&self) -> StoredView {
        StoredView {
            client_id: self.client_id,
            tx_type: self.tx_type,
            amount: self.amount@,
            disputed: self.disputed,
        }
    }
}

impl StoredTransaction {
    /// A record of a transaction, not under dispute.
    pub fn new(client_id: ClientId, tx_type: TransactionType, amount: Amount) -> (r:
        StoredTransaction)
        ensures
            r.client_id == client_id,
            r.tx_type == tx_type,
            r.amount == amount,
            !r.disputed,
    {
        StoredTransaction { client_id, tx_type, amount, disputed: false }
    }

    /// Only a deposit that is not under dispute can be disputed.
    pub fn can_dispute(&self) -> (r: bool)
        ensures
            r == (self.tx_type == TransactionType::Deposit && !self.disputed),
    {
        self.tx_type == TransactionType::Deposit && !self.disputed
    }

    /// Marks the transaction as under dispute.
    pub fn mark_disputed(&mut self)
        ensures
            *final(self) == (StoredTransaction { disputed: true, ..*old(self) }),
    {
        self.disputed = true;
    }

    /// Marks the transaction as no longer under dispute.
    pub fn mark_resolved(&mut self)
        ensures
            *final(self) == (StoredTransaction { disputed: false, ..*old(self) }),
    {
        self.disputed = false;
    }

    /// Whether the transaction is under dispute.
    pub fn is_disputed(&self) -> (r: bool)
        ensures
            r == self.disputed,
    {
        self.disputed
    }
}

/// Abstract state of an account: balances in units.
pub struct AccountView {
    pub available: int,
    pub held: int,
    pub total: int,
    pub locked: bool,
}

impl AccountView {
    /// A fresh account: zero balances, unlocked.
    pub open spec fn fresh() -> AccountView {
        AccountView { available: 0, held: 0, total: 0, locked: false }
    }

    /// `available + held == total`, with every balance in range.
    pub open spec fn consistent(self) -> bool {
        &&& self.available + self.held == self.total
        &&& in_range(self.available)
        &&& in_range(self.held)
        &&& in_range(self.total)
    }

    /// A deposit keeps the available funds and the total in range.
    pub open spec fn can_deposit(self, amount: int) -> bool {
        in_range(self.available + amount) && in_range(self.total + amount)
    }

    /// The account after crediting `amount`.
    pub open spec fn deposited(self, amount: int) -> AccountView {
        AccountView {
            available: self.available + amount,
            total: self.total + amount,
            ..self
        }
    }

    /// A withdrawal goes through when the funds suffice and the result is in range.
    pub open spec fn can_withdraw(self, amount: int) -> bool {
        self.available >= amount && in_range(self.available - amount) && in_range(
            self.total - amount,
        )
    }

    /// The account after debiting `amount`.
    pub open spec fn withdrawn(self, amount: int) -> AccountView {
        AccountView {
            available: self.available - amount,
            total: self.total - amount,
            ..self
        }
    }

    /// Holding keeps the available and held funds in range.
    pub open spec fn can_hold(self, amount: int) -> bool {
        in_range(self.available - amount) && in_range(self.held + amount)
    }

    /// The account after moving `amount` from available to held.
    pub open spec fn holding(self, amount: int) -> AccountView {
        AccountView { available: self.available - amount, held: self.held + amount, ..self }
    }

    /// Releasing keeps the held and available funds in range.
    pub open spec fn can_release(self, amount: int) -> bool {
        in_range(self.held - amount) && in_range(self.available + amount)
    }

    /// The account after moving `amount` from held back to available.
    pub open spec fn released(self, amount: int) -> AccountView {
        AccountView { available: self.available + amount, held: self.held - amount, ..self }
    }

    /// A chargeback keeps the held funds and the total in range.
    pub open spec fn can_charge_back(self, amount: int) -> bool {
        in_range(self.held - amount) && in_range(self.total - amount)
    }

    /// The account after removing `amount` from held and total, locked.
    pub open spec fn charged_back(self, amount: int) -> AccountView {
        AccountView {
            held: self.held - amount,
            total: self.total - amount,
            locked: true,
            ..self
        }
    }
}

/// A client's account.
#[derive(Clone, Copy, Debug)]
pub struct Account {
    pub client: ClientId,
    pub available: Amount,
    pub held: Amount,
    pub total: Amount,
    pub locked: bool,
}

impl View for Account {
    type V = AccountView;

    open spec fn view(&self) -> AccountView {
        AccountView {
            available: self.available@,
            held: self.held@,
            total: self.total@,
            locked: self.locked,
        }
    }
}

impl Account {
    /// A new account with zero balances, unlocked.
    pub fn new(client: ClientId) -> (r: Account)
        ensures
            r.client == client,
            r@ == AccountView::fresh(),
    {
        Account {
            client,
            available: Amount::zero(),
            held: Amount::zero(),
            total: Amount::zero(),
            locked: false,
        }
    }

    /// Whether a deposit of `amount` keeps the balances in range.
    pub fn can_deposit(&self, amount: Amount) -> (r: bool)
        ensures
            r == self@.can_deposit(amount@),
    {
        let a = self.available.units();
        let t = self.total.units();
        let m = amount.units();
        fits_sum(a, m) && fits_sum(t, m)
    }

    /// Credits `amount` to the available funds and the total.
    pub fn deposit(&mut self, amount: Amount)
        requires
            old(self)@.can_deposit(amount@),
        ensures
            final(self)@ == old(self)@.deposited(amount@),
            final(self).client == old(self).client,
    {
        self.available = Amount::from_units(self.available.units() + amount.units());
        self.total = Amount::from_units(self.total.units() + amount.units());
    }

    /// Debits `amount` when the available funds cover it (and the result is
    /// in range); returns whether it did, leaving the account as it was if not.
    pub fn withdraw(&mut self, amount: Amount) -> (r: bool)
        ensures
            r == old(self)@.can_withdraw(amount@),
            final(self)@ == (if r {
                old(self)@.withdrawn(amount@)
            } else {
                old(self)@
            }),
            final(self).client == old(self).client,
    {
        let a = self.available.units();
        let t = self.total.units();
        let m = amount.units();
        if a >= m && fits_diff(a, m) && fits_diff(t, m) {
            self.available = Amount::from_units(a - m);
            self.total = Amount::from_units(t - m);
            true
        } else {
            false
        }
    }

    /// Whether holding `amount` keeps the balances in range.
    pub fn can_hold(&self, amount: Amount) -> (r: bool)
        ensures
            r == self@.can_hold(amount@),
    {
        fits_diff(self.available.units(), amount.units()) && fits_sum(
            self.held.units(),
            amount.units(),
        )
    }

    /// Moves `amount` from the available funds to the held funds.
    pub fn hold_funds(&mut self, amount: Amount)
        requires
            old(self)@.can_hold(amount@),
        ensures
            final(self)@ == old(self)@.holding(amount@),
            final(self).client == old(self).client,
    {
        self.available = Amount::from_units(self.available.units() - amount.units());
        self.held = Amount::from_units(self.held.units() + amount.units());
    }

    /// Whether releasing `amount` keeps the balances in range.
    pub fn can_release(&self, amount: Amount) -> (r: bool)
        ensures
            r == self@.can_release(amount@),
    {
        fits_diff(self.held.units(), amount.units()) && fits_sum(
            self.available.units(),
            amount.units(),
        )
    }

    /// Moves `amount` from the held funds back to the available funds.
    pub fn release_funds(&mut self, amount: Amount)
        requires
            old(self)@.can_release(amount@),
        ensures
            final(self)@ == old(self)@.released(amount@),
            final(self).client == old(self).client,
    {
        self.held = Amount::from_units(self.held.units() - amount.units());
        self.available = Amount::from_units(self.available.units() + amount.units());
    }

    /// Whether charging back `amount` keeps the balances in range.
    pub fn can_charge_back(&self, amount: Amount) -> (r: bool)
        ensures
            r == self@.can_charge_back(amount@),
    {
        fits_diff(self.held.units(), amount.units()) && fits_diff(
            self.total.units(),
            amount.units(),
        )
    }

    /// Removes `amount` from the held funds and the total, and locks the
    /// account for good.
    pub fn chargeback(&mut self, amount: Amount)
        requires
            old(self)@.can_charge_back(amount@),
        ensures
            final(self)@ == old(self)@.charged_back(amount@),
            final(self).client == old(self).client,
    {
        self.held = Amount::from_units(self.held.units() - amount.units());
        self.total = Amount::from_units(self.total.units() - amount.units());
        self.locked = true;
    }

    /// Whether the account is locked.
    pub fn is_locked(&self) -> (r: bool)
        ensures
            r == self.locked,
    {
        self.locked
    }
}

/// Whether `a + b` lies in the balance range.
fn fits_sum(a: i128, b: i128) -> (r: bool)
    ensures
        r == in_range(a + b),
{
    if b >= 0 {
        a <= crate::amount::MAX_UNITS - b && a + b >= -crate::amount::MAX_UNITS
    } else {
        a >= -crate::amount::MAX_UNITS - b && a + b <= crate::amount::MAX_UNITS
    }
}

/// Whether `a - b` lies in the balance range.
fn fits_diff(a: i128, b: i128) -> (r: bool)
    ensures
        r == in_range(a - b),
{
    if b >= 0 {
        a >= -crate::amount::MAX_UNITS + b && a - b <= crate::amount::MAX_UNITS
    } else {
        a <= crate::amount::MAX_UNITS + b && a - b >= -crate::amount::MAX_UNITS
    }
}

} // verus!
