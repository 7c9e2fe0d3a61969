//! Matching and position-accounting core of a perpetual-futures market.
//!
//! The tick-indexed order book, the swap engine, the limit-order lifecycle,
//! the position model and the funding-rate tracker, each with a contract
//! over a mathematical model of the market.

pub mod account;
pub mod corelib;
pub mod market;
pub mod market_laws;
pub mod operations;
pub mod position;
pub mod position_manager;
pub mod store;
pub mod types;
