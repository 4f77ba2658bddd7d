//! Live ingestion of pre-confirmed Starknet data.
//!
//! A Starknet node pushes transactions, receipts and events over websocket
//! subscriptions before the block that holds them is accepted. This crate
//! decides what to subscribe to, what each notification says, and which
//! pending block the notifications seen so far amount to:
//!
//! - [`provider`] reads and writes the messages of the node;
//! - [`live`] correlates them and plans pending blocks.

pub mod provider;
pub mod live;
