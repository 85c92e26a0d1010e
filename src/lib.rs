//! A ledger of client accounts driven by an ordered stream of transaction
//! records: deposits, withdrawals and the dispute lifecycle
//! (dispute, then resolve or chargeback).
//!
//! Amounts are fixed-point integers: the caller chooses the scale (for
//! example ten-thousandths of a currency unit) and uses it throughout.
pub mod engine;
pub mod laws;
pub mod model;
pub mod store;
pub mod transaction;

pub use engine::{AccountRecord, EngineError, LedgerEngine, run_payment_engine};
pub use store::{Account, TxEntry};
pub use transaction::{TransactionRecord, TransactionType};
