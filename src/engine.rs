//! The per-event rules: which events are accepted, and what they change.

use crate::laws::lemma_step_keeps_consistent;
use crate::types::{
    Account, AccountView, ClientId, StoredTransaction, StoredView, TransactionId,
    TransactionRecord, TransactionType,
};
use std::collections::{HashMap, HashSet};
use vstd::prelude::*;

verus! {

broadcast use vstd::std_specs::hash::group_hash_axioms;

/// The abstract ledger: accounts by client, deposits kept for disputes by
/// transaction id, and every id used so far by a deposit or a withdrawal.
pub struct LedgerState {
    pub accounts: Map<ClientId, AccountView>,
    pub transactions: Map<TransactionId, StoredView>,
    pub seen: Set<TransactionId>,
}

impl LedgerState {
    /// The ledger before any event.
    pub open spec fn empty() -> LedgerState {
        LedgerState { accounts: Map::empty(), transactions: Map::empty(), seen: Set::empty() }
    }

    /// Every account satisfies `available + held == total`, in range.
    pub open spec fn consistent(self) -> bool {
        forall|c: ClientId| #[trigger]
            self.accounts.contains_key(c) ==> self.accounts[c].consistent()
    }
}

/// Deposits and withdrawals mint a transaction id; the other kinds refer to one.
pub open spec fn is_transfer(t: TransactionType) -> bool {
    t == TransactionType::Deposit || t == TransactionType::Withdrawal
}

/// The account an event refers to, as it stands before the event.
pub open spec fn account_before(s: LedgerState, c: ClientId) -> AccountView {
    if s.accounts.contains_key(c) {
        s.accounts[c]
    } else {
        AccountView::fresh()
    }
}

/// Whether the dispute-side event `r` names a kept deposit of its own client.
pub open spec fn owns_stored(s: LedgerState, r: TransactionRecord) -> bool {
    s.transactions.contains_key(r.tx) && s.transactions[r.tx].client_id == r.client
}

/// The effect of an event on an unlocked account `a` of its client, once the
/// account exists in `s`.
pub open spec fn apply(s: LedgerState, r: TransactionRecord, a: AccountView) -> LedgerState {
    let c = r.client;
    match r.tx_type {
        TransactionType::Deposit => {
            let amt = r.amount->Some_0@;
            if a.can_deposit(amt) {
                LedgerState {
                    accounts: s.accounts.insert(c, a.deposited(amt)),
                    transactions: s.transactions.insert(
                        r.tx,
                        StoredView {
                            client_id: c,
                            tx_type: TransactionType::Deposit,
                            amount: amt,
                            disputed: false,
                        },
                    ),
                    seen: s.seen,
                }
            } else {
                s
            }
        },
        TransactionType::Withdrawal => {
            let amt = r.amount->Some_0@;
            if a.can_withdraw(amt) {
                LedgerState { accounts: s.accounts.insert(c, a.withdrawn(amt)), ..s }
            } else {
                s
            }
        },
        TransactionType::Dispute => {
            let st = s.transactions[r.tx];
            if owns_stored(s, r) && st.tx_type == TransactionType::Deposit && !st.disputed
                && a.can_hold(st.amount) {
                LedgerState {
                    accounts: s.accounts.insert(c, a.holding(st.amount)),
                    transactions: s.transactions.insert(r.tx, StoredView { disputed: true, ..st }),
                    seen: s.seen,
                }
            } else {
                s
            }
        },
        TransactionType::Resolve => {
            let st = s.transactions[r.tx];
            if owns_stored(s, r) && st.disputed && a.can_release(st.amount) {
                LedgerState {
                    accounts: s.accounts.insert(c, a.released(st.amount)),
                    transactions: s.transactions.insert(r.tx, StoredView { disputed: false, ..st }),
                    seen: s.seen,
                }
            } else {
                s
            }
        },
        TransactionType::Chargeback => {
            let st = s.transactions[r.tx];
            if owns_stored(s, r) && st.disputed && a.can_charge_back(st.amount) {
                LedgerState { accounts: s.accounts.insert(c, a.charged_back(st.amount)), ..s }
            } else {
                s
            }
        },
    }
}

/// The ledger after one event.
///
/// A deposit or withdrawal without an amount, or whose id was already used
/// by a deposit or withdrawal, changes nothing. Otherwise the id is recorded
/// (for those two kinds), the client's account is created if it is new, and
/// a locked account stops the event there. An event whose result would leave
/// the balance range is ignored as well.
pub open spec fn step(s: LedgerState, r: TransactionRecord) -> LedgerState {
    if is_transfer(r.tx_type) && (r.amount is None || s.seen.contains(r.tx)) {
        s
    } else {
        let seen = if is_transfer(r.tx_type) {
            s.seen.insert(r.tx)
        } else {
            s.seen
        };
        let a = account_before(s, r.client);
        let opened = LedgerState {
            accounts: s.accounts.insert(r.client, a),
            transactions: s.transactions,
            seen,
        };
        if a.locked {
            opened
        } else {
            apply(opened, r, a)
        }
    }
}

/// The ledger after a sequence of events, applied in order.
pub open spec fn replay(s: LedgerState, rs: Seq<TransactionRecord>) -> LedgerState
    decreases rs.len(),
{
    if rs.len() == 0 {
        s
    } else {
        step(replay(s, rs.drop_last()), rs.last())
    }
}

proof fn lemma_push_contains(s: Seq<ClientId>, c: ClientId, k: ClientId)
    ensures
        s.push(c).contains(k) <==> (s.contains(k) || k == c),
{
    if s.contains(k) {
        let i = choose|i: int| 0 <= i < s.len() && s[i] == k;
        assert(s.push(c)[i] == k);
    }
    if k == c {
        assert(s.push(c)[s.len() as int] == k);
    }
    if s.push(c).contains(k) && k != c {
        let i = choose|i: int| 0 <= i < s.len() + 1 && s.push(c)[i] == k;
        assert(s[i] == k);
    }
}

proof fn lemma_push_no_duplicates(s: Seq<ClientId>, c: ClientId)
    requires
        s.no_duplicates(),
        !s.contains(c),
    ensures
        s.push(c).no_duplicates(),
{
    assert forall|i: int, j: int|
        0 <= i < s.len() + 1 && 0 <= j < s.len() + 1 && i != j implies s.push(c)[i] != s.push(
            c,
        )[j] by {
        if i == s.len() {
            assert(s[j] == s.push(c)[j]);
        } else if j == s.len() {
            assert(s[i] == s.push(c)[i]);
        }
    }
}

/// The engine: owns the ledger and applies events one at a time, in order.
pub struct Engine {
    accounts: HashMap<ClientId, Account>,
    transactions: HashMap<TransactionId, StoredTransaction>,
    seen_tx_ids: HashSet<TransactionId>,
    clients: Vec<ClientId>,
}

impl View for Engine {
    type V = LedgerState;

    closed spec fn view(&self) -> LedgerState {
        LedgerState {
            accounts: Map::new(
                |c: ClientId| self.accounts@.contains_key(c),
                |c: ClientId| self.accounts@[c]@,
            ),
            transactions: Map::new(
                |t: TransactionId| self.transactions@.contains_key(t),
                |t: TransactionId| self.transactions@[t]@,
            ),
            seen: self.seen_tx_ids@,
        }
    }
}

impl Engine {
    /// Internal consistency: accounts are filed under their own client,
    /// `clients` lists each account once, in order of first reference, and
    /// every account is consistent.
    pub closed spec fn wf(&self) -> bool {
        &&& forall|c: ClientId| #[trigger]
            self.accounts@.contains_key(c) ==> self.accounts@[c].client == c
        &&& forall|c: ClientId|
            self.accounts@.contains_key(c) <==> #[trigger] self.clients@.contains(c)
        &&& self.clients@.no_duplicates()
        &&& self@.consistent()
    }

    /// An engine with an empty ledger.
    pub fn new() -> (r: Engine)
        ensures
            r.wf(),
            r@ == LedgerState::empty(),
            r@.consistent(),
    {
        let r = Engine {
            accounts: HashMap::new(),
            transactions: HashMap::new(),
            seen_tx_ids: HashSet::new(),
            clients: Vec::new(),
        };
        assert(r@.accounts =~= Map::empty());
        assert(r@.transactions =~= Map::empty());
        r
    }
    /// Applies one event to the ledger, as `step` describes.
    pub fn process_transaction(&mut self, record: &TransactionRecord)
        requires
            old(self).wf(),
        ensures
            final(self).wf(),
            final(self)@ == step(old(self)@, *record),
            final(self)@.consistent(),
    {
        let ghost s0 = self@;
        proof {
            lemma_step_keeps_consistent(s0, *record);
        }
        let c = record.client;
        let t = record.tx;
        let transfer = record.tx_type == TransactionType::Deposit || record.tx_type
            == TransactionType::Withdrawal;
        if transfer {
            if record.amount.is_none() {
                return ;
            }
            if !self.seen_tx_ids.insert(t) {
                assert(self.seen_tx_ids@ =~= s0.seen);
                assert(self@ == s0);
                return ;
            }
        }
        let mut account = match self.accounts.get(&c) {
            Some(a) => *a,
            None => {
                proof {
                    lemma_push_no_duplicates(self.clients@, c);
                }
                self.clients.push(c);
                Account::new(c)
            },
        };
        self.accounts.insert(c, account);
        assert forall|k: ClientId|
            self.accounts@.contains_key(k) <==> #[trigger] self.clients@.contains(k) by {
            lemma_push_contains(old(self).clients@, c, k);
        }
        let ghost s1 = self@;
        assert(s1.accounts =~= s0.accounts.insert(c, account_before(s0, c)));
        if account.is_locked() {
            return ;
        }
        match record.tx_type {
            TransactionType::Deposit => {
                if let Some(amount) = record.amount {
                    if account.can_deposit(amount) {
                        account.deposit(amount);
                        self.accounts.insert(c, account);
                        self.transactions.insert(
                            t,
                            StoredTransaction::new(c, TransactionType::Deposit, amount),
                        );
                        assert(self@.accounts =~= s1.accounts.insert(c, account@));
                        assert(self@.transactions =~= s1.transactions.insert(
                            t,
                            StoredView {
                                client_id: c,
                                tx_type: TransactionType::Deposit,
                                amount: amount@,
                                disputed: false,
                            },
                        ));
                    }
                }
            },
            TransactionType::Withdrawal => {
                if let Some(amount) = record.amount {
                    if account.withdraw(amount) {
                        self.accounts.insert(c, account);
                        assert(self@.accounts =~= s1.accounts.insert(c, account@));
                    }
                }
            },
            TransactionType::Dispute => {
                if let Some(stored) = self.transactions.get(&t) {
                    let mut st = *stored;
                    if st.client_id == c && st.can_dispute() && account.can_hold(st.amount) {
                        account.hold_funds(st.amount);
                        st.mark_disputed();
                        self.accounts.insert(c, account);
                        self.transactions.insert(t, st);
                        assert(self@.accounts =~= s1.accounts.insert(c, account@));
                        assert(self@.transactions =~= s1.transactions.insert(t, st@));
                    }
                }
            },
            TransactionType::Resolve => {
                if let Some(stored) = self.transactions.get(&t) {
                    let mut st = *stored;
                    if st.client_id == c && st.is_disputed() && account.can_release(st.amount) {
                        account.release_funds(st.amount);
                        st.mark_resolved();
                        self.accounts.insert(c, account);
                        self.transactions.insert(t, st);
                        assert(self@.accounts =~= s1.accounts.insert(c, account@));
                        assert(self@.transactions =~= s1.transactions.insert(t, st@));
                    }
                }
            },
            TransactionType::Chargeback => {
                if let Some(stored) = self.transactions.get(&t) {
                    let st = *stored;
                    if st.client_id == c && st.is_disputed() && account.can_charge_back(
                        st.amount,
                    ) {
                        account.chargeback(st.amount);
                        self.accounts.insert(c, account);
                        assert(self@.accounts =~= s1.accounts.insert(c, account@));
                    }
                }
            },
        }
    }

    /// Applies each event in order, as `replay` describes.
    pub fn process_all(&mut self, records: &Vec<TransactionRecord>)
        requires
            old(self).wf(),
        ensures
            final(self).wf(),
            final(self)@ == replay(old(self)@, records@),
            final(self)@.consistent(),
    {
        let ghost s0 = self@;
        let mut i: usize = 0;
        while i < records.len()
            invariant
                self.wf(),
                0 <= i <= records.len(),
                self@ == replay(s0, records@.take(i as int)),
            decreases records.len() - i,
        {
            self.process_transaction(&records[i]);
            proof {
                assert(records@.take(i + 1).drop_last() =~= records@.take(i as int));
            }
            i = i + 1;
        }
        assert(records@.take(records@.len() as int) =~= records@);
    }

    /// The account of `client`, if any event has referred to it.
    pub fn account(&self, client: ClientId) -> (r: Option<Account>)
        requires
            self.wf(),
        ensures
            match r {
                Some(a) => self@.accounts.contains_key(client) && a@ == self@.accounts[client]
                    && a.client == client,
                None => !self@.accounts.contains_key(client),
            },
    {
        match self.accounts.get(&client) {
            Some(a) => Some(*a),
            None => None,
        }
    }

    /// Every account, once each, in the order their clients were first referred to.
    pub fn accounts(&self) -> (r: Vec<Account>)
        requires
            self.wf(),
        ensures
            forall|i: int|
                0 <= i < r@.len() ==> self@.accounts.contains_key(#[trigger] r@[i].client)
                    && r@[i]@ == self@.accounts[r@[i].client],
            forall|c: ClientId| #[trigger]
                self@.accounts.contains_key(c) ==> exists|i: int|
                    0 <= i < r@.len() && r@[i].client == c,
            forall|i: int, j: int|
                0 <= i < r@.len() && 0 <= j < r@.len() && i != j ==> r@[i].client != r@[j].client,
    {
        let mut out: Vec<Account> = Vec::new();
        let mut i: usize = 0;
        while i < self.clients.len()
            invariant
                self.wf(),
                0 <= i <= self.clients@.len(),
                out@.len() == i,
                forall|j: int| 0 <= j < i ==> #[trigger] out@[j].client == self.clients@[j],
                forall|j: int|
                    0 <= j < i ==> self@.accounts.contains_key(#[trigger] out@[j].client)
                        && out@[j]@ == self@.accounts[out@[j].client],
            decreases self.clients@.len() - i,
        {
            let c = self.clients[i];
            assert(self.clients@.contains(c));
            match self.accounts.get(&c) {
                Some(a) => {
                    out.push(*a);
                },
                None => {},
            }
            i = i + 1;
        }
        assert forall|c: ClientId| #[trigger]
            self@.accounts.contains_key(c) implies exists|j: int|
                0 <= j < out@.len() && out@[j].client == c by {
            assert(self.clients@.contains(c));
            let j = choose|j: int| 0 <= j < self.clients@.len() && self.clients@[j] == c;
            assert(out@[j].client == c);
        }
        out
    }
}

} // verus!
