//! A market-decision engine: technical indicators blended with sentiment into a
//! signal, a per-instrument decision policy, position reconciliation, bounded
//! activity and portfolio logs, and the state machines that drive trading cycles.
//!
//! Prices and amounts are fixed-point integers in micro-units (one millionth of a
//! dollar, or of a coin); signals and sentiment are basis points in [-10000, 10000].

mod clock;
pub mod decimal;
pub mod history;
pub mod indicators;
pub mod ledger;
pub mod market;
pub mod pipeline;
pub mod policy;
pub mod reconcile;
pub mod sentiment;
pub mod settings;
