//! The operations on a pool: deposit, swap, and locking by its authority.

pub mod deposit;
pub mod swap;
pub mod update;
