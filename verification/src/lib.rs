//! Verified core of a liquidator bot for an on-chain lending protocol.
//!
//! The crate holds the bot's logic: fixed-point valuation of lending
//! positions, the in-memory state engine that mirrors protocol accounts,
//! and the decision functions of the rebalance/scan processor loop.
//! Network I/O, signing and transaction submission live outside the
//! library; the functions here compute plans and state transitions from
//! plain values and are verified against their contracts.

pub mod fixed_point;
pub mod accounts;
pub mod valuation;
pub mod accessor;
pub mod derivation;
pub mod engine;
pub mod channel;
pub mod batch;
pub mod processor;
