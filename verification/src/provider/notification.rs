//! The notifications of a subscription, as the node's types decode them.

use vstd::prelude::*;

use super::json::{self, Json};
use super::models::{
    EmittedEvent, EmittedEventWithFinality, EmittedEventWithFinalityView, FieldElement,
    L2TransactionStatus, ReceiptBlock, TransactionFinalityStatus, TransactionReceiptWithBlockInfo,
    TransactionWithL2Status,
};

verus! {

type NodeFelt = starknet_rust::core::types::Felt;

type NodeFinality = starknet_rust::core::types::TransactionFinalityStatus;

type NodeL2Status = starknet_rust::core::types::L2TransactionStatus;

type NodeReceiptBlock = starknet_rust::core::types::ReceiptBlock;

type NodeEvent = starknet_rust::core::types::requests::SubscriptionEventsRequest;

type NodeReceipt =
    starknet_rust::core::types::requests::SubscriptionNewTransactionReceiptsRequest;

type NodeTransaction = starknet_rust::core::types::requests::SubscriptionNewTransactionRequest;

/// The event that the parameters of an event notification decode to, or why
/// they do not.
pub uninterp spec fn decoded_event(params: Json) -> Result<
    EmittedEventWithFinalityView,
    serde_json::Error,
>;

/// The receipt that the parameters of a receipt notification decode to, or why
/// they do not.
pub uninterp spec fn decoded_receipt(params: Json) -> Result<
    TransactionReceiptWithBlockInfo,
    serde_json::Error,
>;

/// The transaction that the parameters of a transaction notification decode to, or why
/// they do not.
pub uninterp spec fn decoded_transaction(params: Json) -> Result<
    TransactionWithL2Status,
    serde_json::Error,
>;

/// `serde_json::from_value` into `SubscriptionEventsRequest`, of which the result is kept,
/// each field element as its bytes: what comes, an error too, depends on the parameters
/// alone.
#[verifier::external_body]
pub(crate) fn decode_event(params: serde_json::Value) -> (decoded: Result<
    EmittedEventWithFinality,
    serde_json::Error,
>)
    ensures
        match decoded {
            Ok(event) => decoded_event(json::json_view(params)) == Ok::<_, serde_json::Error>(event@),
            Err(error) => decoded_event(json::json_view(params)) == Err::<
                EmittedEventWithFinalityView,
                _,
            >(error),
        },
{
    let NodeEvent { result, .. } = serde_json::from_value(params)?;
    let event = result.emitted_event;
    let element = |felt: NodeFelt| FieldElement { bytes: felt.to_bytes_be() };
    let finality_status = match result.finality_status {
        NodeFinality::PreConfirmed => TransactionFinalityStatus::PreConfirmed,
        NodeFinality::AcceptedOnL2 => TransactionFinalityStatus::AcceptedOnL2,
        NodeFinality::AcceptedOnL1 => TransactionFinalityStatus::AcceptedOnL1,
    };
    let (keys, data) = (event.keys.into_iter().map(element), event.data.into_iter().map(element));
    let emitted_event = EmittedEvent { from_address: element(event.from_address),
        keys: keys.collect(), data: data.collect(), block_hash: event.block_hash.map(element),
        block_number: event.block_number, transaction_hash: element(event.transaction_hash),
        transaction_index: event.transaction_index, event_index: event.event_index };
    Ok(EmittedEventWithFinality { emitted_event, finality_status })
}

/// `serde_json::from_value` into `SubscriptionNewTransactionReceiptsRequest`, of which the
/// result is kept: what comes, an error too, depends on the parameters alone.
#[verifier::external_body]
pub(crate) fn decode_receipt(params: serde_json::Value) -> (decoded: Result<
    TransactionReceiptWithBlockInfo,
    serde_json::Error,
>)
    ensures
        decoded == decoded_receipt(json::json_view(params)),
{
    let NodeReceipt { result, .. } = serde_json::from_value(params)?;
    let block = match result.block {
        NodeReceiptBlock::PreConfirmed { block_number } => ReceiptBlock::PreConfirmed {
            block_number,
        },
        NodeReceiptBlock::Block { block_hash, block_number } => ReceiptBlock::Block {
            block_hash: FieldElement { bytes: block_hash.to_bytes_be() },
            block_number,
        },
    };
    Ok(TransactionReceiptWithBlockInfo { receipt: result.receipt, block })
}

/// `serde_json::from_value` into `SubscriptionNewTransactionRequest`, of which the result is
/// kept: what comes, an error too, depends on the parameters alone.
#[verifier::external_body]
pub(crate) fn decode_transaction(params: serde_json::Value) -> (decoded: Result<
    TransactionWithL2Status,
    serde_json::Error,
>)
    ensures
        decoded == decoded_transaction(json::json_view(params)),
{
    let NodeTransaction { result, .. } = serde_json::from_value(params)?;
    let finality_status = match result.finality_status {
        NodeL2Status::Received => L2TransactionStatus::Received,
        NodeL2Status::Candidate => L2TransactionStatus::Candidate,
        NodeL2Status::PreConfirmed => L2TransactionStatus::PreConfirmed,
        NodeL2Status::AcceptedOnL2 => L2TransactionStatus::AcceptedOnL2,
    };
    Ok(TransactionWithL2Status { txn: result.txn, finality_status })
}

} // verus!
