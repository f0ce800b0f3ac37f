//! Verified core of the Predictify Hybrid prediction-market contract.
//!
//! The contract's storage, events, authentication and token transfers live
//! in the host environment; this crate holds the decisions and arithmetic
//! that those entry points delegate to, each with a contract proved by Verus.

pub mod digest;
pub mod errors;
pub mod fee_collection;
pub mod fee_config;
pub mod fee_vault;
pub mod fees;
pub mod gas;
pub mod graceful_degradation;
pub mod market;
pub mod market_id;
pub mod markets;
pub mod monitor;
pub mod payouts;
pub mod resolution;
