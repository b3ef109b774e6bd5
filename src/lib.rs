//! A ledger replay engine: folds an ordered stream of deposit, withdrawal,
//! dispute, resolve and chargeback events into per-client account balances.

pub mod amount;
pub mod types;
pub mod engine;
pub mod laws;
