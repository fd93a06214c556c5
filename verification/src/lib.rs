//! A payments engine: it replays an ordered stream of deposits, withdrawals,
//! disputes, resolutions and chargebacks against per-client accounts.
//!
//! Every amount is an exact decimal. The contracts are stated over a
//! mathematical ledger (`model`) in which balances are unbounded integers.

pub mod account;
pub mod amount;
pub mod engine;
pub mod error;
pub mod laws;
pub mod model;
pub mod transaction;

