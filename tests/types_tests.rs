use tx_ledger::amount::Amount;
use tx_ledger::types::{Account, StoredTransaction, TransactionType};

fn dec(s: &str) -> Amount {
    Amount::parse(s).expect("valid decimal")
}

#[test]
fn test_account_deposit() {
    let mut account = Account::new(1);
    account.deposit(dec("100.5"));

    assert_eq!(account.available, dec("100.5"));
    assert_eq!(account.total, dec("100.5"));
    assert_eq!(account.held, dec("0"));
}

#[test]
fn test_account_withdrawal_success() {
    let mut account = Account::new(1);
    account.deposit(dec("100.0"));

    let success = account.withdraw(dec("50.0"));

    assert!(success);
    assert_eq!(account.available, dec("50.0"));
    assert_eq!(account.total, dec("50.0"));
}

#[test]
fn test_account_withdrawal_insufficient_funds() {
    let mut account = Account::new(1);
    account.deposit(dec("100.0"));

    let success = account.withdraw(dec("150.0"));

    assert!(!success);
    assert_eq!(account.available, dec("100.0"));
    assert_eq!(account.total, dec("100.0"));
}

#[test]
fn test_account_dispute_flow() {
    let mut account = Account::new(1);
    account.deposit(dec("100.0"));

    account.hold_funds(dec("100.0"));
    assert_eq!(account.available, dec("0"));
    assert_eq!(account.held, dec("100.0"));
    assert_eq!(account.total, dec("100.0"));

    account.release_funds(dec("100.0"));
    assert_eq!(account.available, dec("100.0"));
    assert_eq!(account.held, dec("0"));
    assert_eq!(account.total, dec("100.0"));
}

#[test]
fn test_account_chargeback() {
    let mut account = Account::new(1);
    account.deposit(dec("100.0"));
    account.hold_funds(dec("100.0"));

    account.chargeback(dec("100.0"));

    assert_eq!(account.available, dec("0"));
    assert_eq!(account.held, dec("0"));
    assert_eq!(account.total, dec("0"));
    assert!(account.is_locked());
}

#[test]
fn test_stored_transaction_can_dispute() {
    let tx = StoredTransaction::new(1, TransactionType::Deposit, dec("100.0"));
    assert!(tx.can_dispute());

    let mut tx_disputed = tx.clone();
    tx_disputed.mark_disputed();
    assert!(!tx_disputed.can_dispute());

    let tx_withdrawal = StoredTransaction::new(1, TransactionType::Withdrawal, dec("50.0"));
    assert!(!tx_withdrawal.can_dispute());
}

#[test]
fn stored_transaction_resolve_clears_dispute() {
    let mut tx = StoredTransaction::new(7, TransactionType::Deposit, dec("3"));
    tx.mark_disputed();
    assert!(tx.is_disputed());
    tx.mark_resolved();
    assert!(!tx.is_disputed());
    assert!(tx.can_dispute());
}

#[test]
fn account_new_is_empty_and_unlocked() {
    let account = Account::new(42);
    assert_eq!(account.client, 42);
    assert_eq!(account.available, Amount::zero());
    assert_eq!(account.held, Amount::zero());
    assert_eq!(account.total, Amount::zero());
    assert!(!account.is_locked());
}

#[test]
fn account_withdraw_exact_balance() {
    let mut account = Account::new(1);
    account.deposit(dec("10.25"));
    assert!(account.withdraw(dec("10.25")));
    assert_eq!(account.available, Amount::zero());
    assert_eq!(account.total, Amount::zero());
}

#[test]
fn account_range_checks() {
    let mut account = Account::new(1);
    account.deposit(Amount::from_units(tx_ledger::amount::MAX_UNITS));
    assert!(!account.can_deposit(Amount::from_units(1)));
    assert!(account.can_deposit(Amount::from_units(-1)));
    assert!(account.can_hold(Amount::from_units(5)));
    assert!(!account.can_release(Amount::from_units(5)));
    assert!(!account.can_charge_back(Amount::from_units(-1)));
}
