//! Pricing and accounting core of a two-asset constant-product liquidity pool.
//!
//! The crate holds no custody and moves no asset. Each operation reads a
//! snapshot of the pool, derives the quantities to move, checks them against
//! the caller's limits and records the outcome in the snapshot; the caller
//! carries out the transfers that the returned quantities describe.

pub mod curve;
pub mod error;
pub mod instructions;
pub mod state;
