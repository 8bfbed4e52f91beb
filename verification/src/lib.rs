//! A proportional-ownership pooled-asset vault: depositors receive shares
//! representing pro-rata ownership of the pool, and withdrawals burn shares
//! for a proportional slice of the pool's current assets.
//!
//! The vault engine is a pure state machine: every operation takes the
//! externally observed pool balance as a plain argument and returns the
//! event record that the surrounding host should publish, so that the
//! accounting logic itself is fully verified.

pub mod account;
pub mod ledger;
pub mod vault;
pub mod laws;
pub mod user_data;
