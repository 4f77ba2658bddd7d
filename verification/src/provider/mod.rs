//! The messages of a Starknet node.

pub mod digits;
pub mod json;
pub mod meaning;
pub mod models;
pub mod notification;
pub mod subscribe;
pub mod ws;

pub use self::models::BlockExt;
pub use self::subscribe::StarknetLiveEventFilter;
pub use self::ws::{
    NewEventMessage, NewHeadMessage, NewTransactionMessage, NewTransactionReceiptMessage,
    ProviderReport, StarknetLiveMessage, StarknetProviderError,
};
