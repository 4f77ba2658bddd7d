use serde_json::Value;
use starknet_live::provider::json::{extract_result_u64, json_value_as_u64};
use starknet_live::provider::models::{
    FieldElement, L2TransactionFinalityStatus, L2TransactionStatus, TransactionFinalityStatus,
};
use starknet_live::provider::subscribe::{
    live_subscribe_request_groups, payload_string, AddressFilter, ConfirmedBlockId, LiveSubscribeRequest,
    SubscribeEventsRequest, SubscribeNewTransactionReceiptsRequest,
    SubscribeNewTransactionsRequest, SubscribeRequest, SubscriptionTag,
};
use starknet_live::provider::ws::{
    decode_live_message, poll_new_head, HeadCause, HeadNotification, HeadParams, HeadResult,
    LiveCause, LiveNotification, Message, Polled, StreamCause,
};
use starknet_live::provider::digits::FromHexError;
use starknet_live::provider::{
    NewHeadMessage, ProviderReport, StarknetLiveEventFilter, StarknetLiveMessage,
    StarknetProviderError,
};

type ExecutionResult = starknet_rust::core::types::ExecutionResult;
type FeePayment = starknet_rust::core::types::FeePayment;
type Felt = starknet_rust::core::types::Felt;
type PriceUnit = starknet_rust::core::types::PriceUnit;

fn value(text: &str) -> Value {
    serde_json::from_str(text).unwrap()
}

fn felt(hex: &str) -> FieldElement {
    FieldElement {
        bytes: Felt::from_hex(hex).unwrap().to_bytes_be(),
    }
}

fn receipt_result(hash: &str, block_number: u64) -> Value {
    let mut result = value(
        r#"{
            "type": "INVOKE",
            "actual_fee": { "amount": "0x0", "unit": "FRI" },
            "finality_status": "PRE_CONFIRMED",
            "messages_sent": [],
            "events": [],
            "execution_resources": {
                "l1_gas": 0,
                "l1_data_gas": 0,
                "l2_gas": 0
            },
            "execution_status": "SUCCEEDED",
            "transaction_index": 7
        }"#,
    );
    result["transaction_hash"] = Value::from(hash);
    result["block_number"] = Value::from(block_number);
    result
}

fn transaction_result(hash: &str) -> Value {
    let mut result = value(
        r#"{
            "type": "INVOKE",
            "version": "0x1",
            "sender_address": "0x1",
            "calldata": [],
            "max_fee": "0x0",
            "signature": [],
            "nonce": "0x0",
            "finality_status": "PRE_CONFIRMED",
            "block_number": 10,
            "transaction_index": 3
        }"#,
    );
    result["transaction_hash"] = Value::from(hash);
    result
}

fn event_result(hash: &str) -> Value {
    let mut result = value(
        r#"{
            "from_address": "0x1",
            "keys": ["0x2"],
            "data": ["0x3"],
            "block_number": 10,
            "transaction_index": 4,
            "event_index": 5,
            "finality_status": "PRE_CONFIRMED"
        }"#,
    );
    result["transaction_hash"] = Value::from(hash);
    result
}

fn notification(method: &str, subscription_id: &str, result: Value) -> Value {
    let mut message = value(r#"{ "jsonrpc": "2.0", "params": {} }"#);
    message["method"] = Value::from(method);
    message["params"]["subscription_id"] = Value::from(subscription_id);
    message["params"]["result"] = result;
    message
}

fn present(member: Option<&Value>) -> Option<Value> {
    member.filter(|value| !value.is_null()).cloned()
}

fn live_notification(text: &str) -> Result<LiveNotification, serde_json::Error> {
    let message: Value = serde_json::from_str(text)?;
    Ok(LiveNotification {
        method: serde_json::from_value(message["method"].clone())?,
        params: present(message.get("params")),
        error: present(message.get("error")),
    })
}

/// The message that carries `text`, decoded.
fn live_text(text: &str) -> Message<LiveNotification> {
    Message::Text(live_notification(text))
}

fn head_text(text: &str) -> Message<HeadNotification> {
    Message::Text(
        serde_json::from_str::<Value>(text).map(|message| HeadNotification {
            params: present(message.get("params")).map(|params| HeadParams {
                result: HeadResult {
                    block_hash: params["result"]["block_hash"].as_str().unwrap().to_string(),
                    block_number: params["result"]["block_number"].as_u64().unwrap(),
                },
            }),
        }),
    )
}

fn head(number: u64, hash: &str) -> Message<HeadNotification> {
    let mut message = value(r#"{ "params": { "result": {} } }"#);
    message["params"]["result"]["block_number"] = Value::from(number);
    message["params"]["result"]["block_hash"] = Value::from(hash);
    head_text(&message.to_string())
}

#[test]
fn live_subscribe_requests_use_pre_confirmed_filters() {
    let event_request = LiveSubscribeRequest::Events(SubscribeEventsRequest {
        from_address: None,
        keys: None,
        block_id: None,
        finality_status: Some(L2TransactionFinalityStatus::PreConfirmed),
    })
    .into_string();
    let event_request: Value = serde_json::from_str(&event_request).unwrap();
    assert_eq!(event_request["method"], "starknet_subscribeEvents");
    assert_eq!(
        event_request["params"]["finality_status"],
        Value::from("PRE_CONFIRMED")
    );

    let receipt_request =
        LiveSubscribeRequest::NewTransactionReceipts(SubscribeNewTransactionReceiptsRequest {
            finality_status: Some(vec![L2TransactionFinalityStatus::PreConfirmed]),
            sender_address: None,
        })
        .into_string();
    let receipt_request: Value = serde_json::from_str(&receipt_request).unwrap();
    assert_eq!(
        receipt_request["method"],
        "starknet_subscribeNewTransactionReceipts"
    );
    assert_eq!(
        receipt_request["params"]["finality_status"],
        Value::from(vec!["PRE_CONFIRMED"])
    );

    let transaction_request =
        LiveSubscribeRequest::NewTransactions(SubscribeNewTransactionsRequest {
            finality_status: Some(vec![L2TransactionStatus::PreConfirmed]),
            sender_address: None,
            tags: None,
        })
        .into_string();
    let transaction_request: Value = serde_json::from_str(&transaction_request).unwrap();
    assert_eq!(
        transaction_request["method"],
        "starknet_subscribeNewTransactions"
    );
    assert_eq!(
        transaction_request["params"]["finality_status"],
        Value::from(vec!["PRE_CONFIRMED"])
    );
}

#[test]
fn live_event_subscribe_request_serializes_address_and_key_filter() {
    let event_request = LiveSubscribeRequest::Events(SubscribeEventsRequest {
        from_address: Some(AddressFilter::Single(felt("0x1"))),
        keys: Some(vec![vec![felt("0x2")]]),
        block_id: None,
        finality_status: Some(L2TransactionFinalityStatus::PreConfirmed),
    })
    .into_string();

    let event_request: Value = serde_json::from_str(&event_request).unwrap();
    assert_eq!(event_request["method"], "starknet_subscribeEvents");
    assert_eq!(event_request["params"]["from_address"], Value::from("0x1"));
    assert_eq!(event_request["params"]["keys"], value(r#"[["0x2"]]"#));
    assert_eq!(
        event_request["params"]["finality_status"],
        Value::from("PRE_CONFIRMED")
    );
}

#[test]
fn live_subscribe_request_groups_use_dedicated_event_connection() {
    let mut groups = live_subscribe_request_groups(Some(StarknetLiveEventFilter {
        from_address: Some(felt("0x1")),
        keys: Some(vec![vec![felt("0x2")]]),
    }));

    assert_eq!(groups.len(), 2);

    let event_group = groups.remove(0);
    assert_eq!(event_group.len(), 1);
    let event_request: Value =
        serde_json::from_str(&event_group.into_iter().next().unwrap().into_string()).unwrap();
    assert_eq!(event_request["method"], "starknet_subscribeEvents");
    assert_eq!(event_request["params"]["from_address"], Value::from("0x1"));
    assert_eq!(event_request["params"]["keys"], value(r#"[["0x2"]]"#));

    let transaction_group = groups.remove(0);
    assert_eq!(transaction_group.len(), 2);
    let methods = transaction_group
        .into_iter()
        .map(|request| {
            let request: Value = serde_json::from_str(&request.into_string()).unwrap();
            request["method"].as_str().unwrap().to_string()
        })
        .collect::<Vec<_>>();
    assert_eq!(
        methods,
        vec![
            "starknet_subscribeNewTransactionReceipts",
            "starknet_subscribeNewTransactions"
        ]
    );
}

#[test]
fn parses_transaction_receipt_notification() {
    let message = notification(
        "starknet_subscriptionNewTransactionReceipts",
        "0x1",
        receipt_result("0x123", 10),
    );

    let parsed = StarknetLiveMessage::try_from_message(live_text(&message.to_string())).unwrap();

    let Some(StarknetLiveMessage::Receipt(parsed)) = parsed else {
        panic!("expected receipt notification");
    };
    assert_eq!(parsed.transaction_index, Some(7));
    assert_eq!(parsed.receipt.block.block_number(), 10);
    assert_eq!(
        *parsed.receipt.receipt.transaction_hash(),
        Felt::from_hex("0x123").unwrap()
    );
    assert_eq!(
        parsed.receipt.receipt.execution_result(),
        &ExecutionResult::Succeeded
    );
    assert_eq!(
        parsed.receipt.receipt.finality_status(),
        &starknet_rust::core::types::TransactionFinalityStatus::PreConfirmed
    );
    let actual_fee = match parsed.receipt.receipt {
        starknet_rust::core::types::TransactionReceipt::Invoke(receipt) => receipt.actual_fee,
        _ => panic!("expected invoke receipt"),
    };
    assert_eq!(
        actual_fee,
        FeePayment {
            amount: Felt::from_hex("0x0").unwrap(),
            unit: PriceUnit::Fri
        }
    );
}

#[test]
fn parses_new_head_hash_as_fixed_width_cursor_hash() {
    let message = notification(
        "starknet_subscriptionNewHeads",
        "0x4",
        value(r#"{ "block_number": 10, "block_hash": "0x123" }"#),
    );

    let parsed = NewHeadMessage::try_from_message(head_text(&message.to_string()))
        .unwrap()
        .expect("head notification");

    let mut expected = vec![0; 32];
    expected[30] = 0x01;
    expected[31] = 0x23;

    assert_eq!(parsed.block_number, 10);
    assert_eq!(
        parsed.block_hash,
        starknet_live::provider::models::Hash(expected)
    );
    assert_eq!(parsed.cursor().number, 10);
    assert_eq!(parsed.cursor().hash, parsed.block_hash);
}

#[test]
fn parses_transaction_notification_and_ignores_subscribe_ack() {
    let ack = value(r#"{ "jsonrpc": "2.0", "id": 1, "result": "0xabc" }"#);
    assert!(
        StarknetLiveMessage::try_from_message(live_text(&ack.to_string()))
            .unwrap()
            .is_none()
    );

    let message = notification(
        "starknet_subscriptionNewTransaction",
        "0x2",
        transaction_result("0x123"),
    );

    let parsed = StarknetLiveMessage::try_from_message(live_text(&message.to_string())).unwrap();

    let Some(StarknetLiveMessage::Transaction(parsed)) = parsed else {
        panic!("expected transaction notification");
    };
    assert_eq!(parsed.block_number, Some(10));
    assert_eq!(parsed.transaction_index, Some(3));
    assert_eq!(
        parsed.transaction.finality_status,
        L2TransactionStatus::PreConfirmed
    );
    assert_eq!(
        *parsed.transaction.txn.transaction_hash(),
        Felt::from_hex("0x123").unwrap()
    );
}

#[test]
fn parses_event_notification() {
    let message = notification("starknet_subscriptionEvents", "0x3", event_result("0x123"));

    let parsed = StarknetLiveMessage::try_from_message(live_text(&message.to_string())).unwrap();

    let Some(StarknetLiveMessage::Event(parsed)) = parsed else {
        panic!("expected event notification");
    };
    assert_eq!(parsed.event.emitted_event.block_number, Some(10));
    assert_eq!(parsed.event.emitted_event.transaction_index, 4);
    assert_eq!(parsed.event.emitted_event.event_index, 5);
    assert_eq!(
        parsed.event.finality_status,
        TransactionFinalityStatus::PreConfirmed
    );
    assert_eq!(parsed.event.emitted_event.from_address, felt("0x1"));
    assert_eq!(parsed.event.emitted_event.keys, vec![felt("0x2")]);
    assert_eq!(parsed.event.emitted_event.data, vec![felt("0x3")]);
    assert_eq!(parsed.event.emitted_event.block_hash, None);
    assert_eq!(parsed.event.emitted_event.transaction_hash, felt("0x123"));
}

#[test]
fn accepted_notifications_keep_their_block_hash_and_finality() {
    let mut result = event_result("0x123");
    result["block_hash"] = Value::from("0xabc");
    result["finality_status"] = Value::from("ACCEPTED_ON_L2");
    let message = notification("starknet_subscriptionEvents", "0x3", result);
    let Ok(Some(StarknetLiveMessage::Event(parsed))) =
        StarknetLiveMessage::try_from_message(live_text(&message.to_string()))
    else {
        panic!("expected event notification");
    };
    assert_eq!(parsed.event.emitted_event.block_hash, Some(felt("0xabc")));
    assert_eq!(
        parsed.event.finality_status,
        TransactionFinalityStatus::AcceptedOnL2
    );

    let mut result = receipt_result("0x123", 10);
    result["block_hash"] = Value::from("0xabc");
    result["finality_status"] = Value::from("ACCEPTED_ON_L2");
    let message = notification("starknet_subscriptionNewTransactionReceipts", "0x1", result);
    let Ok(Some(StarknetLiveMessage::Receipt(parsed))) =
        StarknetLiveMessage::try_from_message(live_text(&message.to_string()))
    else {
        panic!("expected receipt notification");
    };
    assert_eq!(
        parsed.receipt.block,
        starknet_live::provider::models::ReceiptBlock::Block {
            block_hash: felt("0xabc"),
            block_number: 10
        }
    );
}

#[test]
fn messages_that_are_no_notifications_are_passed_over() {
    for text in [
        r#"{ "method": "starknet_subscriptionEvents" }"#,
        r#"{ "method": "starknet_subscriptionEvents", "params": null }"#,
        r#"{ "params": { "result": {} } }"#,
        r#"{ "method": "starknet_subscriptionReorg", "params": {} }"#,
        r#"{ "method": "starknet_subscriptionevents", "params": {} }"#,
    ] {
        assert!(StarknetLiveMessage::try_from_message(live_text(text))
            .unwrap()
            .is_none());
    }
    assert!(StarknetLiveMessage::try_from_message(Message::Other)
        .unwrap()
        .is_none());
}

#[test]
fn messages_that_make_no_sense_are_errors() {
    for text in [
        "{",
        r#"{ "method": 3, "params": {} }"#,
        r#"{ "error": { "code": -32602 } }"#,
        r#"{ "method": "starknet_subscriptionEvents", "params": {}, "error": 0 }"#,
        r#"{ "method": "starknet_subscriptionEvents", "params": {} }"#,
        r#"{ "method": "starknet_subscriptionNewTransactionReceipts", "params": {} }"#,
        r#"{ "method": "starknet_subscriptionNewTransaction", "params": 3 }"#,
    ] {
        assert_eq!(
            StarknetLiveMessage::try_from_message(live_text(text))
                .unwrap_err()
                .error,
            StarknetProviderError::Request
        );
    }
}

#[test]
fn what_an_error_comes_from_is_kept() {
    let cause = |text: &str| {
        StarknetLiveMessage::try_from_message(live_text(text))
            .unwrap_err()
            .cause
    };
    let LiveCause::Text(error) = cause("{") else {
        panic!("expected the text");
    };
    assert!(error.is_eof());
    let LiveCause::Reported(error) = cause(r#"{ "error": { "code": 7 }, "method": "a" }"#) else {
        panic!("expected what the node reports");
    };
    assert_eq!(error, value(r#"{ "code": 7 }"#));
    let LiveCause::Event(error) =
        cause(r#"{ "method": "starknet_subscriptionEvents", "params": {} }"#)
    else {
        panic!("expected the event");
    };
    assert!(error.is_data());
    assert!(matches!(
        cause(r#"{ "method": "starknet_subscriptionNewTransactionReceipts", "params": {} }"#),
        LiveCause::Receipt(_)
    ));
    assert!(matches!(
        cause(r#"{ "method": "starknet_subscriptionNewTransaction", "params": 3 }"#),
        LiveCause::Transaction(_)
    ));
    let HeadCause::BlockHash { text, error } = NewHeadMessage::try_from_message(head(1, "0x12g"))
        .unwrap_err()
        .cause
    else {
        panic!("expected the hash");
    };
    assert_eq!(text, "0x12g");
    assert_eq!(error, FromHexError::InvalidHexCharacter { c: 'g', index: 3 });
    assert!(matches!(
        NewHeadMessage::try_from_message(head_text("{")).unwrap_err().cause,
        HeadCause::Text(_)
    ));
}

#[test]
fn decoded_notifications_become_messages() {
    let failed = || serde_json::from_str::<Value>("{").unwrap_err();
    assert!(StarknetLiveMessage::from_event(Err(failed())).is_err());
    assert!(StarknetLiveMessage::from_receipt(Err(failed()), Some(1)).is_err());
    assert!(StarknetLiveMessage::from_transaction(Err(failed()), Some(1), Some(2)).is_err());

    let message = notification(
        "starknet_subscriptionNewTransaction",
        "0x2",
        transaction_result("0x123"),
    );
    let Ok(Some(StarknetLiveMessage::Transaction(parsed))) =
        StarknetLiveMessage::try_from_message(live_text(&message.to_string()))
    else {
        panic!("expected transaction notification");
    };
    let Ok(Some(StarknetLiveMessage::Transaction(again))) =
        StarknetLiveMessage::from_transaction(Ok(parsed.transaction.clone()), None, Some(8))
    else {
        panic!("expected transaction");
    };
    assert_eq!(again.transaction, parsed.transaction);
    assert_eq!(again.block_number, None);
    assert_eq!(again.transaction_index, Some(8));
}

#[test]
fn result_numbers_are_found_by_name_and_by_position() {
    let by_name = value(r#"{ "subscription_id": "0x1", "result": { "block_number": "0x1f" } }"#);
    let by_position = value(r#"["0x1", { "block_number": "0x1f" }]"#);
    for params in [by_name, by_position] {
        assert_eq!(extract_result_u64(&params, "block_number"), Some(31));
        assert_eq!(extract_result_u64(&params, "transaction_index"), None);
    }
    for params in [
        "{}",
        "[]",
        r#"[{ "block_number": 1 }]"#,
        r#"{ "result": 1 }"#,
        "7",
        "null",
    ] {
        assert_eq!(extract_result_u64(&value(params), "block_number"), None);
    }
}

#[test]
fn numbers_are_read_in_every_form_a_node_writes() {
    for (text, expected) in [
        ("10", Some(10)),
        ("18446744073709551615", Some(u64::MAX)),
        ("18446744073709551616", None),
        ("-1", None),
        ("1.0", None),
        ("true", None),
        ("null", None),
        (r#""10""#, Some(10)),
        (r#""+10""#, Some(10)),
        (r#""0x10""#, Some(16)),
        (r#""0xFf""#, Some(255)),
        (r#""0x+a""#, Some(10)),
        (r#""0xffffffffffffffff""#, Some(u64::MAX)),
        (r#""0x10000000000000000""#, None),
        (r#""18446744073709551615""#, Some(u64::MAX)),
        (r#""18446744073709551616""#, None),
        (r#""0x""#, None),
        (r#""0x0x1""#, None),
        (r#""0X10""#, None),
        (r#""1f""#, None),
        (r#""""#, None),
        (r#""+""#, None),
        (r#""-1""#, None),
        (r#"" 1""#, None),
    ] {
        assert_eq!(json_value_as_u64(&value(text)), expected, "{text}");
    }
}

#[test]
fn requests_are_written_whole() {
    assert_eq!(
        SubscribeRequest {
            block_id: ConfirmedBlockId::Latest
        }
        .into_string(),
        r#"{"id":0,"jsonrpc":"2.0","method":"starknet_subscribeNewHeads","params":["latest"]}"#
    );
    for (block_id, expected) in [
        (ConfirmedBlockId::L1Accepted, r#"["l1_accepted"]"#),
        (ConfirmedBlockId::Number(7), r#"[{ "block_number": 7 }]"#),
        (
            ConfirmedBlockId::Hash(felt("0xab")),
            r#"[{ "block_hash": "0xab" }]"#,
        ),
    ] {
        let request = value(&SubscribeRequest { block_id }.into_string());
        assert_eq!(request["params"], value(expected));
    }
    assert_eq!(
        LiveSubscribeRequest::NewTransactions(SubscribeNewTransactionsRequest {
            finality_status: Some(vec![
                L2TransactionStatus::Received,
                L2TransactionStatus::Candidate,
                L2TransactionStatus::PreConfirmed,
                L2TransactionStatus::AcceptedOnL2,
            ]),
            sender_address: Some(vec![felt("0x1"), felt("0x2")]),
            tags: Some(vec![SubscriptionTag::IncludeProofFacts]),
        })
        .into_string(),
        concat_lines(&[
            r#"{"id":3,"jsonrpc":"2.0","method":"starknet_subscribeNewTransactions","params":"#,
            r#"{"finality_status":["RECEIVED","CANDIDATE","PRE_CONFIRMED","ACCEPTED_ON_L2"],"#,
            r#""sender_address":["0x1","0x2"],"tags":["INCLUDE_PROOF_FACTS"]}}"#,
        ])
    );
    assert_eq!(
        LiveSubscribeRequest::NewTransactionReceipts(SubscribeNewTransactionReceiptsRequest {
            finality_status: Some(vec![L2TransactionFinalityStatus::AcceptedOnL2]),
            sender_address: Some(vec![felt("0x1")]),
        })
        .into_string(),
        concat_lines(&[
            r#"{"id":2,"jsonrpc":"2.0","method":"starknet_subscribeNewTransactionReceipts","#,
            r#""params":{"finality_status":["ACCEPTED_ON_L2"],"sender_address":["0x1"]}}"#,
        ])
    );
    assert_eq!(
        LiveSubscribeRequest::Events(SubscribeEventsRequest {
            from_address: Some(AddressFilter::Multiple(vec![felt("0x1"), felt("0x2")])),
            keys: Some(vec![vec![], vec![felt("0x3"), felt("0x4")]]),
            block_id: Some(ConfirmedBlockId::Number(7)),
            finality_status: Some(L2TransactionFinalityStatus::AcceptedOnL2),
        })
        .into_string(),
        concat_lines(&[
            r#"{"id":1,"jsonrpc":"2.0","method":"starknet_subscribeEvents","params":"#,
            r#"{"block_id":{"block_number":7},"finality_status":"ACCEPTED_ON_L2","#,
            r#""from_address":["0x1","0x2"],"keys":[[],["0x3","0x4"]]}}"#,
        ])
    );
}

fn concat_lines(lines: &[&str]) -> String {
    lines.concat()
}

#[test]
fn field_elements_are_written_as_their_numbers() {
    for (element, expected) in [
        (felt("0x0"), "0x0"),
        (felt("0x10"), "0x10"),
        (felt("0xABCDEF0123456789abcdef"), "0xabcdef0123456789abcdef"),
        (
            felt("0x800000000000011000000000000000000000000000000000000000000000000"),
            "0x800000000000011000000000000000000000000000000000000000000000000",
        ),
        (prime(0), "0x0"),
        (prime(1), "0x1"),
        (
            FieldElement { bytes: [0xff; 32] },
            "0x7fffffffffffdf0ffffffffffffffffffffffffffffffffffffffffffffffe0",
        ),
    ] {
        let block_id = ConfirmedBlockId::Hash(element);
        let request = value(&SubscribeRequest { block_id }.into_string());
        assert_eq!(request["params"][0]["block_hash"], expected);
    }
}

/// The bytes of the field's prime and `more`.
fn prime(more: u8) -> FieldElement {
    let mut bytes = [0; 32];
    bytes[0] = 0x08;
    bytes[7] = 0x11;
    bytes[31] = 1 + more;
    FieldElement { bytes }
}

#[test]
fn parts_that_are_missing_are_not_written() {
    assert_eq!(
        LiveSubscribeRequest::Events(SubscribeEventsRequest {
            from_address: None,
            keys: None,
            block_id: None,
            finality_status: None,
        })
        .into_string(),
        r#"{"id":1,"jsonrpc":"2.0","method":"starknet_subscribeEvents","params":{}}"#
    );
    assert_eq!(
        payload_string(4, "a\"b", value("[1]")),
        r#"{"id":4,"jsonrpc":"2.0","method":"a\"b","params":[1]}"#
    );
}

#[test]
fn without_a_filter_no_events_are_asked_for() {
    let groups = live_subscribe_request_groups(None);
    assert_eq!(groups.len(), 1);
    assert_eq!(groups[0].len(), 2);
    let groups = live_subscribe_request_groups(Some(StarknetLiveEventFilter::default()));
    assert_eq!(groups.len(), 2);
    let request = value(&groups.into_iter().next().unwrap().remove(0).into_string());
    assert_eq!(
        request["params"],
        value(r#"{ "finality_status": "PRE_CONFIRMED" }"#)
    );
}

#[test]
fn a_filter_is_copied_whole() {
    let filter = StarknetLiveEventFilter {
        from_address: Some(felt("0x1")),
        keys: Some(vec![vec![felt("0x2"), felt("0x3")], vec![]]),
    };
    let copy = filter.clone();
    assert_eq!(copy.from_address, filter.from_address);
    assert_eq!(copy.keys, filter.keys);
}

#[test]
fn every_live_request_asks_for_pre_confirmed_data() {
    let groups = live_subscribe_request_groups(Some(StarknetLiveEventFilter::default()));
    let mut ids = Vec::new();
    for request in groups.into_iter().flatten() {
        let request = value(&request.into_string());
        let status = &request["params"]["finality_status"];
        assert!(*status == "PRE_CONFIRMED" || *status == Value::from(vec!["PRE_CONFIRMED"]));
        ids.push(request["id"].as_u64().unwrap());
    }
    assert_eq!(ids, vec![1, 2, 3]);
}

#[test]
fn heads_are_read_or_refused() {
    assert!(NewHeadMessage::try_from_message(Message::Other)
        .unwrap()
        .is_none());
    assert!(
        NewHeadMessage::try_from_message(head_text(r#"{ "result": "0x1" }"#))
            .unwrap()
            .is_none()
    );
    assert_eq!(
        NewHeadMessage::try_from_message(head_text("nonsense"))
            .unwrap_err()
            .error,
        StarknetProviderError::Request
    );
    assert_eq!(
        NewHeadMessage::try_from_message(head(1, "0x12g"))
            .unwrap_err()
            .error,
        StarknetProviderError::Request
    );
}

#[test]
fn a_stream_of_heads_passes_on_what_it_can() {
    assert!(matches!(poll_new_head::<()>(Polled::Pending), Polled::Pending));
    assert!(matches!(
        poll_new_head::<()>(Polled::Ready(None)),
        Polled::Ready(None)
    ));
    assert!(matches!(
        poll_new_head(Polled::Ready(Some(Err("closed")))),
        Polled::Ready(Some(Err(ProviderReport {
            error: StarknetProviderError::Request,
            cause: StreamCause::Connection("closed"),
        })))
    ));
    assert!(matches!(
        poll_new_head::<()>(Polled::Ready(Some(Ok(Message::Other)))),
        Polled::Pending
    ));
    assert!(matches!(
        poll_new_head::<()>(Polled::Ready(Some(Ok(head_text("nonsense"))))),
        Polled::Ready(Some(Err(ProviderReport {
            error: StarknetProviderError::Request,
            cause: StreamCause::Message(HeadCause::Text(_)),
        })))
    ));
    let Polled::Ready(Some(Ok(found))) =
        poll_new_head::<()>(Polled::Ready(Some(Ok(head(11, "0x1")))))
    else {
        panic!("expected a head");
    };
    assert_eq!(found.block_number, 11);
}

#[test]
fn a_stream_of_live_data_passes_on_what_it_can() {
    assert!(matches!(
        decode_live_message(Err("closed")),
        Some(Err(ProviderReport {
            error: StarknetProviderError::Request,
            cause: StreamCause::Connection("closed"),
        }))
    ));
    assert!(decode_live_message::<()>(Ok(Message::Other)).is_none());
    assert!(matches!(
        decode_live_message::<()>(Ok(live_text("{"))),
        Some(Err(ProviderReport {
            error: StarknetProviderError::Request,
            cause: StreamCause::Message(LiveCause::Text(_)),
        }))
    ));
    let message = notification("starknet_subscriptionEvents", "0x3", event_result("0x123"));
    let items = vec![
        Ok(Message::Other),
        Err("closed"),
        Ok(live_text(&message.to_string())),
    ]
    .into_iter()
    .filter_map(decode_live_message)
    .map(|item| item.is_ok())
    .collect::<Vec<_>>();
    assert_eq!(items, vec![false, true]);
    assert!(matches!(
        decode_live_message::<()>(Ok(live_text(&message.to_string()))),
        Some(Ok(StarknetLiveMessage::Event(_)))
    ));
}
