//! Three ledgers of a small on-chain game economy, each an owned state
//! machine: a reward ledger that accrues a balance from rented capacity, a
//! pooled lottery with rake extraction, and a commit-reveal oracle.
//!
//! The host that runs a call supplies the caller, the block height, the block
//! timestamp and the value attached to the call as plain arguments, performs
//! the native transfers the ledgers ask for, and publishes the events they
//! hand back.

pub mod account;
pub mod account_map;
pub mod coretime_clicker;
pub mod prize_pool;
pub mod rng;
