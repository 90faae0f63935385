//! A small proof-of-work ledger: blocks, a pending-transfer pool, mining,
//! chain validation, signed transfers and longest-valid-chain reconciliation.

pub mod encoding;
pub mod block;
pub mod codec;
pub mod blockchain;
pub mod wallet;
pub mod consensus;
pub mod node;
