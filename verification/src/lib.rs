//! Execution and risk core of an automated-trading pipeline.
//!
//! The core enforces pre-trade risk limits, applies executions to a
//! per-symbol position ledger with average-cost accounting, and emits
//! immutable fill records.
//!
//! All prices and sizes are integers in fixed scaled units (for example,
//! hundredths of a currency unit and whole shares), so every quantity the
//! core computes is exact. A position's cost basis is carried as the signed
//! product `position * average_price`, which stays an integer even when the
//! average price itself is a fraction.

pub mod coordinator;
pub mod fills;
pub mod ledger;
pub mod market;
pub mod risk;
