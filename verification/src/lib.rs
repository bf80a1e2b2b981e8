//! A ledger engine for client accounts.
//!
//! The engine consumes deposits, withdrawals, disputes, resolves and
//! chargebacks one record at a time and keeps one balance per client. Money
//! is counted exactly, in ten-thousandths, and read and written as decimal
//! text. Every executable function is verified against a mathematical model
//! in which balances are unbounded integers.

pub mod amount;
pub mod decimal;
pub mod engine;
pub mod error;
pub mod laws;
pub mod ledger;
pub mod model;
