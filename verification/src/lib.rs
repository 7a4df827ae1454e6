//! A replay engine for per-client financial transactions.
//!
//! An ordered stream of deposits, withdrawals, disputes, resolves and
//! chargebacks is applied one record at a time to an in-memory set of
//! accounts. Every record either commits atomically or is rejected with a
//! typed reason and no effect; processing always continues with the next
//! record. The final per-client balances can be read back at any time.
pub mod api;
pub mod engine;
pub mod model;
pub mod store;

pub use api::{ApplyError, Client, ClientId, Currency, Operation, Transaction, TransactionId};
pub use engine::Engine;
