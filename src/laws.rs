//! Properties of the ledger rules that hold for every state and every event.

use crate::engine::{account_before, is_transfer, replay, step, LedgerState};
use crate::types::{ClientId, TransactionRecord, TransactionType};
use vstd::prelude::*;

verus! {

/// Every event keeps `available + held == total` for every account, with no
/// balance leaving the representable range.
pub proof fn lemma_step_keeps_consistent(s: LedgerState, r: TransactionRecord)
    requires
        s.consistent(),
    ensures
        step(s, r).consistent(),
{
    let t = step(s, r);
    assert forall|c: ClientId| #[trigger] t.accounts.contains_key(c) implies t.accounts[c].consistent() by {
        if c != r.client {
            assert(s.accounts.contains_key(c));
        }
    }
}

/// Any sequence of events keeps every account consistent.
pub proof fn lemma_replay_keeps_consistent(s: LedgerState, rs: Seq<TransactionRecord>)
    requires
        s.consistent(),
    ensures
        replay(s, rs).consistent(),
    decreases rs.len(),
{
    if rs.len() > 0 {
        lemma_replay_keeps_consistent(s, rs.drop_last());
        lemma_step_keeps_consistent(replay(s, rs.drop_last()), rs.last());
    }
}

/// Once an account is locked, no event changes its balances or its lock.
pub proof fn lemma_locked_account_frozen(s: LedgerState, r: TransactionRecord, c: ClientId)
    requires
        s.accounts.contains_key(c),
        s.accounts[c].locked,
    ensures
        step(s, r).accounts.contains_key(c),
        step(s, r).accounts[c] == s.accounts[c],
{
}

/// Once an account is locked, no later sequence of events changes it.
pub proof fn lemma_locked_account_stays_frozen(
    s: LedgerState,
    rs: Seq<TransactionRecord>,
    c: ClientId,
)
    requires
        s.accounts.contains_key(c),
        s.accounts[c].locked,
    ensures
        replay(s, rs).accounts.contains_key(c),
        replay(s, rs).accounts[c] == s.accounts[c],
    decreases rs.len(),
{
    if rs.len() > 0 {
        lemma_locked_account_stays_frozen(s, rs.drop_last(), c);
        lemma_locked_account_frozen(replay(s, rs.drop_last()), rs.last(), c);
    }
}

/// Of two deposits or withdrawals with the same transaction id, the second
/// changes nothing at all: no balance, no record, and no account is created.
pub proof fn lemma_duplicate_id_ignored(
    s: LedgerState,
    first: TransactionRecord,
    second: TransactionRecord,
)
    requires
        is_transfer(first.tx_type),
        first.amount is Some,
        is_transfer(second.tx_type),
        second.tx == first.tx,
    ensures
        step(step(s, first), second) == step(s, first),
{
}

/// A dispute, resolve or chargeback that names no deposit of its own client
/// moves no money and changes no record: at most the client's account is
/// created, with zero balances.
pub proof fn lemma_foreign_reference_moves_nothing(s: LedgerState, r: TransactionRecord)
    requires
        !is_transfer(r.tx_type),
        s.transactions.contains_key(r.tx) ==> s.transactions[r.tx].client_id != r.client,
    ensures
        step(s, r).transactions == s.transactions,
        step(s, r).seen == s.seen,
        step(s, r).accounts == s.accounts.insert(r.client, account_before(s, r.client)),
{
}

/// Every kept deposit has an id that was used by a deposit or withdrawal.
pub open spec fn records_seen(s: LedgerState) -> bool {
    forall|t: u32| #[trigger] s.transactions.contains_key(t) ==> s.seen.contains(t)
}

/// Every step keeps the kept deposits among the used ids.
pub proof fn lemma_step_keeps_records_seen(s: LedgerState, r: TransactionRecord)
    requires
        records_seen(s),
    ensures
        records_seen(step(s, r)),
{
}

/// Any sequence of events keeps the kept deposits among the used ids.
pub proof fn lemma_replay_keeps_records_seen(s: LedgerState, rs: Seq<TransactionRecord>)
    requires
        records_seen(s),
    ensures
        records_seen(replay(s, rs)),
    decreases rs.len(),
{
    if rs.len() > 0 {
        lemma_replay_keeps_records_seen(s, rs.drop_last());
        lemma_step_keeps_records_seen(replay(s, rs.drop_last()), rs.last());
    }
}

/// A withdrawal is never disputable: after any history of events, a
/// withdrawal with a fresh id followed by a dispute of that id by the same
/// client leaves the ledger as the withdrawal left it.
pub proof fn lemma_withdrawal_not_disputable(
    history: Seq<TransactionRecord>,
    w: TransactionRecord,
    d: TransactionRecord,
)
    requires
        w.tx_type == TransactionType::Withdrawal,
        w.amount is Some,
        !replay(LedgerState::empty(), history).seen.contains(w.tx),
        d.tx_type == TransactionType::Dispute,
        d.tx == w.tx,
        d.client == w.client,
    ensures
        ({
            let s = replay(LedgerState::empty(), history);
            step(step(s, w), d) == step(s, w)
        }),
{
    let s = replay(LedgerState::empty(), history);
    lemma_replay_keeps_records_seen(LedgerState::empty(), history);
    let s1 = step(s, w);
    assert(!s1.transactions.contains_key(w.tx));
    assert(s1.accounts.contains_key(d.client));
    assert(s1.accounts.insert(d.client, s1.accounts[d.client]) =~= s1.accounts);
}

} // verus!
