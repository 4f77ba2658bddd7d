use starknet_live::live::block::{empty_state_diff, BlockIngestionResult};
use starknet_live::live::model::LiveEntry;
use starknet_live::live::{
    LiveAssemblerInsert, LivePendingBlock, PendingBlockPlan, PendingBody, StarknetLiveAssembler,
};
use starknet_live::provider::models::{
    EmittedEvent, EmittedEventWithFinality, FieldElement, L2TransactionStatus, ReceiptBlock,
    StateDiff, TransactionFinalityStatus, TransactionReceiptWithBlockInfo, TransactionWithL2Status,
};
use starknet_live::provider::{
    NewEventMessage, NewTransactionMessage, NewTransactionReceiptMessage, StarknetLiveMessage,
};

type ExecutionResources = starknet_rust::core::types::ExecutionResources;
type ExecutionResult = starknet_rust::core::types::ExecutionResult;
type FeePayment = starknet_rust::core::types::FeePayment;
type Felt = starknet_rust::core::types::Felt;
type InvokeTransaction = starknet_rust::core::types::InvokeTransaction;
type InvokeTransactionReceipt = starknet_rust::core::types::InvokeTransactionReceipt;
type InvokeTransactionV1 = starknet_rust::core::types::InvokeTransactionV1;
type PriceUnit = starknet_rust::core::types::PriceUnit;
type NodeTransaction = starknet_rust::core::types::Transaction;
type NodeTransactionContent = starknet_rust::core::types::TransactionContent;
type InvokeTransactionContent = starknet_rust::core::types::InvokeTransactionContent;
type NodeTransactionReceipt = starknet_rust::core::types::TransactionReceipt;

const TRANSACTION_FRAGMENT_ID: u8 = 2;
const RECEIPT_FRAGMENT_ID: u8 = 3;
const EVENT_FRAGMENT_ID: u8 = 4;
const STORAGE_DIFF_FRAGMENT_ID: u8 = 6;

struct BodyFragment {
    fragment_id: u8,
    data: Vec<Felt>,
}

type Ingested = BlockIngestionResult<BodyFragment, u8, (u8, u8)>;

type Pending = LivePendingBlock<BodyFragment, u8, (u8, u8)>;

fn node_felt(value: u64) -> Felt {
    Felt::from_hex(&format!("0x{value:x}")).unwrap()
}

fn felt(value: u64) -> FieldElement {
    FieldElement {
        bytes: node_felt(value).to_bytes_be(),
    }
}

fn transaction(hash: u64) -> TransactionWithL2Status {
    TransactionWithL2Status {
        txn: NodeTransaction::Invoke(InvokeTransaction::V1(InvokeTransactionV1 {
            transaction_hash: node_felt(hash),
            sender_address: node_felt(1),
            calldata: Vec::new(),
            max_fee: node_felt(0),
            signature: Vec::new(),
            nonce: node_felt(0),
        })),
        finality_status: L2TransactionStatus::PreConfirmed,
    }
}

fn receipt(hash: u64, block_number: u64) -> TransactionReceiptWithBlockInfo {
    TransactionReceiptWithBlockInfo {
        receipt: NodeTransactionReceipt::Invoke(InvokeTransactionReceipt {
            transaction_hash: node_felt(hash),
            actual_fee: FeePayment {
                amount: node_felt(0),
                unit: PriceUnit::Fri,
            },
            finality_status: starknet_rust::core::types::TransactionFinalityStatus::PreConfirmed,
            messages_sent: Vec::new(),
            events: Vec::new(),
            execution_resources: ExecutionResources {
                l1_gas: 0,
                l1_data_gas: 0,
                l2_gas: 0,
            },
            execution_result: ExecutionResult::Succeeded,
        }),
        block: ReceiptBlock::PreConfirmed { block_number },
    }
}

fn emitted_event(
    hash: u64,
    block_number: u64,
    transaction_index: u64,
    event_index: u64,
) -> EmittedEventWithFinality {
    EmittedEventWithFinality {
        emitted_event: EmittedEvent {
            from_address: felt(1),
            keys: vec![felt(2)],
            data: vec![felt(3)],
            block_hash: None,
            block_number: Some(block_number),
            transaction_hash: felt(hash),
            transaction_index,
            event_index,
        },
        finality_status: TransactionFinalityStatus::PreConfirmed,
    }
}

fn fragment(fragment_id: u8, data: Vec<Felt>) -> BodyFragment {
    BodyFragment { fragment_id, data }
}

/// What is left to show of a transaction once its hash is left out.
fn nonce(transaction: &NodeTransactionContent) -> Felt {
    match transaction {
        NodeTransactionContent::Invoke(InvokeTransactionContent::V1(transaction)) => {
            transaction.nonce
        }
        _ => panic!("expected an invoke transaction"),
    }
}

/// Turns a plan's body into fragments: of transactions their nonces, of all else the hashes.
fn collect_body(body: &PendingBody) -> Ingested {
    let body = match body {
        PendingBody::Transactions(list) => vec![
            fragment(
                TRANSACTION_FRAGMENT_ID,
                list.iter()
                    .map(|entry| nonce(&entry.transaction))
                    .collect(),
            ),
            fragment(
                RECEIPT_FRAGMENT_ID,
                list.iter()
                    .map(|entry| *entry.receipt.transaction_hash())
                    .collect(),
            ),
        ],
        PendingBody::Receipts(list) => vec![
            fragment(TRANSACTION_FRAGMENT_ID, Vec::new()),
            fragment(
                RECEIPT_FRAGMENT_ID,
                list.iter()
                    .map(|receipt| *receipt.transaction_hash())
                    .collect(),
            ),
        ],
        PendingBody::Events(list) => vec![fragment(
            EVENT_FRAGMENT_ID,
            list.iter()
                .map(|event| Felt::from_bytes_be(&event.emitted_event.transaction_hash.bytes))
                .collect(),
        )],
    };
    BlockIngestionResult {
        index: body.iter().map(|fragment| fragment.fragment_id).collect(),
        body,
        join: Vec::new(),
    }
}

fn collect_state_update(diff: &StateDiff) -> Ingested {
    BlockIngestionResult {
        body: vec![fragment(
            STORAGE_DIFF_FRAGMENT_ID,
            diff.storage_diffs
                .iter()
                .map(|item| Felt::from_bytes_be(&item.address.bytes))
                .collect(),
        )],
        index: vec![STORAGE_DIFF_FRAGMENT_ID],
        join: vec![(STORAGE_DIFF_FRAGMENT_ID, RECEIPT_FRAGMENT_ID)],
    }
}

fn finish(plan: PendingBlockPlan) -> Pending {
    let content = collect_body(&plan.body);
    let state_update = collect_state_update(&empty_state_diff());
    let header = plan.block_number.to_be_bytes().to_vec();
    plan.finish_pending_block(content, state_update, header)
}

fn build_pending_block(assembler: &StarknetLiveAssembler, block_number: u64) -> Option<Pending> {
    assembler.build_pending_block(block_number).map(finish)
}

fn build_next_pending_block(assembler: &mut StarknetLiveAssembler, after: u64) -> Option<Pending> {
    assembler.build_next_pending_block(after).map(finish)
}

fn body_fragment(pending: &Pending, fragment_id: u8) -> &BodyFragment {
    pending
        .block
        .body
        .iter()
        .find(|fragment| fragment.fragment_id == fragment_id)
        .unwrap()
}

fn receipt_hashes(pending: &Pending) -> Vec<FieldElement> {
    body_fragment(pending, RECEIPT_FRAGMENT_ID)
        .data
        .iter()
        .map(|hash| FieldElement {
            bytes: hash.to_bytes_be(),
        })
        .collect()
}

#[test]
fn correlates_transaction_and_receipt() {
    let mut assembler = StarknetLiveAssembler::new();

    assert_eq!(
        assembler.push_transaction_with_meta(transaction(1), None, None),
        LiveAssemblerInsert::Inserted
    );
    assert_eq!(
        assembler.push_receipt_with_meta(receipt(1, 10), Some(0)),
        LiveAssemblerInsert::Updated
    );

    let block = build_pending_block(&assembler, 10).unwrap();
    assert_eq!(body_fragment(&block, TRANSACTION_FRAGMENT_ID).data.len(), 1);
    assert_eq!(body_fragment(&block, RECEIPT_FRAGMENT_ID).data.len(), 1);
}

#[test]
fn emits_receipt_only_block() {
    let mut assembler = StarknetLiveAssembler::new();

    assert_eq!(
        assembler.push_receipt_with_meta(receipt(1, 10), None),
        LiveAssemblerInsert::Inserted
    );

    let pending = build_pending_block(&assembler, 10).unwrap();
    assert_eq!(pending.block_number, 10);
    assert_eq!(
        body_fragment(&pending, TRANSACTION_FRAGMENT_ID).data.len(),
        0
    );
    assert_eq!(body_fragment(&pending, RECEIPT_FRAGMENT_ID).data.len(), 1);
}

#[test]
fn emits_event_only_block_from_event_subscription() {
    let mut assembler = StarknetLiveAssembler::new();

    assert_eq!(
        assembler.push_event_with_meta(emitted_event(1, 10, 0, 0)),
        LiveAssemblerInsert::Inserted
    );

    let pending = build_next_pending_block(&mut assembler, 9).unwrap();
    assert_eq!(pending.block_number, 10);
    assert_eq!(body_fragment(&pending, EVENT_FRAGMENT_ID).data.len(), 1);
    assert!(!pending
        .block
        .body
        .iter()
        .any(|fragment| fragment.fragment_id == RECEIPT_FRAGMENT_ID));
}

#[test]
fn ignores_duplicate_receipts() {
    let mut assembler = StarknetLiveAssembler::new();

    assert_eq!(
        assembler.push_receipt_with_meta(receipt(1, 10), Some(0)),
        LiveAssemblerInsert::Inserted
    );
    assert_eq!(
        assembler.push_receipt_with_meta(receipt(1, 10), Some(0)),
        LiveAssemblerInsert::Duplicate
    );

    let block = build_pending_block(&assembler, 10).unwrap();
    assert_eq!(body_fragment(&block, RECEIPT_FRAGMENT_ID).data.len(), 1);
}

#[test]
fn orders_by_block_transaction_index_when_present() {
    let mut assembler = StarknetLiveAssembler::new();

    assembler.push_receipt_with_meta(receipt(12, 10), Some(2));
    assembler.push_receipt_with_meta(receipt(10, 10), Some(0));
    assembler.push_receipt_with_meta(receipt(11, 10), Some(1));

    let block = build_pending_block(&assembler, 10).unwrap();
    assert_eq!(receipt_hashes(&block), vec![felt(10), felt(11), felt(12)]);
    assert_eq!(
        block.transaction_hashes,
        vec![felt(10), felt(11), felt(12)]
    );
}

#[test]
fn falls_back_to_arrival_order_without_transaction_index() {
    let mut assembler = StarknetLiveAssembler::new();

    assembler.push_receipt_with_meta(receipt(12, 10), None);
    assembler.push_receipt_with_meta(receipt(10, 10), None);
    assembler.push_receipt_with_meta(receipt(11, 10), None);

    let block = build_pending_block(&assembler, 10).unwrap();
    assert_eq!(receipt_hashes(&block), vec![felt(12), felt(10), felt(11)]);
}

#[test]
fn known_positions_come_before_unknown_ones() {
    let mut assembler = StarknetLiveAssembler::new();
    assembler.push_receipt_with_meta(receipt(1, 10), None);
    assembler.push_receipt_with_meta(receipt(2, 10), Some(9));
    assembler.push_receipt_with_meta(receipt(3, 10), None);
    assembler.push_receipt_with_meta(receipt(4, 10), Some(9));
    let block = build_pending_block(&assembler, 10).unwrap();
    assert_eq!(
        receipt_hashes(&block),
        vec![felt(2), felt(4), felt(1), felt(3)]
    );
}

#[test]
fn the_position_that_came_first_orders_receipts() {
    let mut assembler = StarknetLiveAssembler::new();
    // The transaction was announced for a later block than its receipt is attached to.
    assembler.push_transaction_with_meta(transaction(1), Some(11), Some(0));
    assembler.push_receipt_with_meta(receipt(1, 10), Some(0));
    assembler.push_receipt_with_meta(receipt(2, 10), Some(5));
    let block = build_pending_block(&assembler, 10).unwrap();
    assert_eq!(receipt_hashes(&block), vec![felt(2), felt(1)]);
    assert!(build_pending_block(&assembler, 11).is_none());
}

#[test]
fn halves_may_come_in_either_order() {
    let mut first = StarknetLiveAssembler::new();
    assert_eq!(
        first.push_transaction_with_meta(transaction(1), Some(10), Some(4)),
        LiveAssemblerInsert::Inserted
    );
    assert_eq!(
        first.push_receipt_with_meta(receipt(1, 10), Some(4)),
        LiveAssemblerInsert::Updated
    );
    let mut second = StarknetLiveAssembler::new();
    assert_eq!(
        second.push_receipt_with_meta(receipt(1, 10), Some(4)),
        LiveAssemblerInsert::Inserted
    );
    assert_eq!(
        second.push_transaction_with_meta(transaction(1), Some(10), Some(4)),
        LiveAssemblerInsert::Updated
    );
    let first = build_pending_block(&first, 10).unwrap();
    let second = build_pending_block(&second, 10).unwrap();
    assert_eq!(first.transaction_hashes, second.transaction_hashes);
    assert_eq!(receipt_hashes(&first), receipt_hashes(&second));
    assert_eq!(
        body_fragment(&first, TRANSACTION_FRAGMENT_ID).data,
        body_fragment(&second, TRANSACTION_FRAGMENT_ID).data
    );
}

#[test]
fn messages_are_pushed_by_their_kind() {
    let mut assembler = StarknetLiveAssembler::new();
    let transaction = StarknetLiveMessage::Transaction(NewTransactionMessage {
        transaction: transaction(1),
        block_number: Some(10),
        transaction_index: None,
    });
    let receipt = StarknetLiveMessage::Receipt(NewTransactionReceiptMessage {
        receipt: receipt(1, 10),
        transaction_index: Some(3),
    });
    let event = StarknetLiveMessage::Event(NewEventMessage {
        event: emitted_event(1, 10, 3, 0),
    });
    for (message, expected) in [
        (transaction.clone(), LiveAssemblerInsert::Inserted),
        (receipt.clone(), LiveAssemblerInsert::Updated),
        (event.clone(), LiveAssemblerInsert::Inserted),
        (transaction, LiveAssemblerInsert::Duplicate),
        (receipt, LiveAssemblerInsert::Duplicate),
        (event, LiveAssemblerInsert::Duplicate),
    ] {
        assert_eq!(assembler.push_message(message), expected);
    }
    assert_eq!(assembler.next_arrival_order(), 2);
}

#[test]
fn each_kind_of_message_has_a_push_of_its_own() {
    let mut assembler = StarknetLiveAssembler::new();
    assert_eq!(
        assembler.push_transaction(NewTransactionMessage {
            transaction: transaction(1),
            block_number: None,
            transaction_index: None,
        }),
        LiveAssemblerInsert::Inserted
    );
    // Only the position is news.
    assert_eq!(
        assembler.push_transaction(NewTransactionMessage {
            transaction: transaction(1),
            block_number: Some(10),
            transaction_index: None,
        }),
        LiveAssemblerInsert::Updated
    );
    assert_eq!(
        assembler.push_receipt(NewTransactionReceiptMessage {
            receipt: receipt(1, 10),
            transaction_index: None,
        }),
        LiveAssemblerInsert::Updated
    );
    assert_eq!(
        assembler.push_receipt(NewTransactionReceiptMessage {
            receipt: receipt(1, 10),
            transaction_index: Some(2),
        }),
        LiveAssemblerInsert::Updated
    );
    assert_eq!(
        assembler.push_event(NewEventMessage {
            event: emitted_event(1, 10, 2, 0),
        }),
        LiveAssemblerInsert::Inserted
    );
}

#[test]
fn events_without_a_block_are_passed_over() {
    let mut assembler = StarknetLiveAssembler::new();
    let mut event = emitted_event(1, 10, 0, 0);
    event.emitted_event.block_number = None;
    assert_eq!(
        assembler.push_event_with_meta(event),
        LiveAssemblerInsert::Duplicate
    );
    assert!(assembler.pending_block_numbers().is_empty());
    assert_eq!(assembler.next_arrival_order(), 0);
}

#[test]
fn events_are_listed_by_their_positions() {
    let mut assembler = StarknetLiveAssembler::new();
    assembler.push_event_with_meta(emitted_event(7, 10, 2, 0));
    assembler.push_event_with_meta(emitted_event(5, 10, 1, 1));
    assembler.push_event_with_meta(emitted_event(6, 11, 0, 0));
    assembler.push_event_with_meta(emitted_event(5, 10, 1, 0));
    let plan = assembler.build_event_pending_block(10).unwrap();
    assert_eq!(
        plan.transaction_hashes,
        vec![felt(5), felt(5), felt(7)]
    );
    let PendingBody::Events(events) = plan.body else {
        panic!("expected events");
    };
    let places = events
        .iter()
        .map(|event| {
            (
                event.emitted_event.transaction_index,
                event.emitted_event.event_index,
            )
        })
        .collect::<Vec<_>>();
    assert_eq!(places, vec![(1, 0), (1, 1), (2, 0)]);
    assert!(assembler.build_event_pending_block(12).is_none());
}

#[test]
fn pending_blocks_are_listed_once_in_order() {
    let mut assembler = StarknetLiveAssembler::new();
    assembler.push_receipt_with_meta(receipt(1, 12), None);
    assembler.push_event_with_meta(emitted_event(2, 10, 0, 0));
    assembler.push_receipt_with_meta(receipt(3, 12), None);
    assembler.push_event_with_meta(emitted_event(4, 11, 0, 0));
    // A transaction alone makes no block pending.
    assembler.push_transaction_with_meta(transaction(5), Some(13), Some(0));
    assert_eq!(assembler.pending_block_numbers(), vec![10, 11, 12]);
}

#[test]
fn pruning_drops_accepted_blocks_and_no_others() {
    let mut assembler = StarknetLiveAssembler::new();
    assembler.push_transaction_with_meta(transaction(1), Some(10), Some(0));
    assembler.push_receipt_with_meta(receipt(2, 10), None);
    assembler.push_receipt_with_meta(receipt(3, 11), None);
    assembler.push_event_with_meta(emitted_event(4, 10, 0, 0));
    assembler.push_event_with_meta(emitted_event(5, 12, 0, 0));
    assembler.prune_through_block(10);
    assert_eq!(assembler.pending_block_numbers(), vec![11, 12]);
    assert!(build_pending_block(&assembler, 10).is_none());
    // The transaction has waited for its receipt.
    assert_eq!(
        assembler.push_receipt_with_meta(receipt(1, 11), None),
        LiveAssemblerInsert::Updated
    );
    // What was pruned is news again.
    assert_eq!(
        assembler.push_receipt_with_meta(receipt(2, 12), None),
        LiveAssemblerInsert::Inserted
    );
    assembler.prune_through_block(12);
    assert!(assembler.pending_block_numbers().is_empty());
}

#[test]
fn pruning_twice_is_pruning_through_the_later_block() {
    let build = || {
        let mut assembler = StarknetLiveAssembler::new();
        for number in 10..15 {
            assembler.push_receipt_with_meta(receipt(number, number), None);
            assembler.push_event_with_meta(emitted_event(number, number, 0, 0));
        }
        assembler
    };
    let mut up = build();
    up.prune_through_block(11);
    up.prune_through_block(13);
    let mut down = build();
    down.prune_through_block(13);
    down.prune_through_block(11);
    assert_eq!(up.pending_block_numbers(), vec![14]);
    assert_eq!(down.pending_block_numbers(), vec![14]);
}

#[test]
fn updates_are_emitted_in_the_order_of_arrival() {
    let mut assembler = StarknetLiveAssembler::new();
    assembler.push_event_with_meta(emitted_event(1, 12, 0, 0));
    assembler.push_receipt_with_meta(receipt(2, 10), None);
    assembler.push_receipt_with_meta(receipt(3, 11), None);

    let first = build_next_pending_block(&mut assembler, 10).unwrap();
    assert_eq!(first.block_number, 12);
    assert_eq!(body_fragment(&first, EVENT_FRAGMENT_ID).data.len(), 1);
    // The update of block 10 is too old.
    let second = build_next_pending_block(&mut assembler, 10).unwrap();
    assert_eq!(second.block_number, 11);
    // No update is left: the first pending block with records is built again.
    let third = build_next_pending_block(&mut assembler, 10).unwrap();
    assert_eq!(third.block_number, 11);
    // Of the first pending block only records count.
    assert!(build_next_pending_block(&mut assembler, 11).is_none());
    assert!(build_next_pending_block(&mut assembler, 12).is_none());
}

#[test]
fn a_pruned_assembler_answers_the_same_afterwards() {
    let build = || {
        let mut assembler = StarknetLiveAssembler::new();
        assembler.push_receipt_with_meta(receipt(1, 10), None);
        assembler.push_event_with_meta(emitted_event(2, 11, 0, 0));
        assembler.push_receipt_with_meta(receipt(3, 12), None);
        assembler
    };
    let mut whole = build();
    let mut pruned = build();
    pruned.prune_through_block(10);
    for after in [10, 11, 11] {
        let expected = build_next_pending_block(&mut whole, after).unwrap();
        let found = build_next_pending_block(&mut pruned, after).unwrap();
        assert_eq!(expected.block_number, found.block_number);
        assert_eq!(expected.transaction_hashes, found.transaction_hashes);
    }
}

#[test]
fn a_pending_block_joins_its_content_and_the_state_update() {
    let mut assembler = StarknetLiveAssembler::new();
    assembler.push_receipt_with_meta(receipt(1, 10), None);
    let pending = build_pending_block(&assembler, 10).unwrap();
    let ids = pending
        .block
        .body
        .iter()
        .map(|fragment| fragment.fragment_id)
        .collect::<Vec<_>>();
    assert_eq!(
        ids,
        vec![
            TRANSACTION_FRAGMENT_ID,
            RECEIPT_FRAGMENT_ID,
            STORAGE_DIFF_FRAGMENT_ID
        ]
    );
    assert_eq!(pending.block.index.indexes, ids);
    assert_eq!(
        pending.block.join.joins,
        vec![(STORAGE_DIFF_FRAGMENT_ID, RECEIPT_FRAGMENT_ID)]
    );
    assert_eq!(pending.block.header.data, 10u64.to_be_bytes().to_vec());
}

#[test]
fn a_pending_block_updates_no_state() {
    let diff = empty_state_diff();
    assert!(diff.storage_diffs.is_empty());
    assert!(diff.deprecated_declared_classes.is_empty());
    assert!(diff.declared_classes.is_empty());
    assert_eq!(diff.migrated_compiled_classes, None);
    assert!(diff.deployed_contracts.is_empty());
    assert!(diff.replaced_classes.is_empty());
    assert!(diff.nonces.is_empty());
}

#[test]
fn a_position_is_merged_once() {
    let mut entry = LiveEntry {
        transaction: None,
        receipt: None,
        block_number: None,
        transaction_index: None,
        arrival_order: 0,
    };
    assert_eq!(entry.position(), None);
    assert!(entry.merge_position(Some(10), None));
    assert_eq!(entry.position(), None);
    assert!(!entry.merge_position(Some(11), None));
    assert!(entry.merge_position(Some(11), Some(3)));
    assert_eq!(entry.position(), Some((10, 3)));
    assert!(!entry.merge_position(None, None));
}

#[test]
fn transactions_and_receipts_are_copied_whole() {
    let mut assembler = StarknetLiveAssembler::new();
    assembler.push_transaction_with_meta(transaction(1), None, None);
    assembler.push_receipt_with_meta(receipt(1, 10), None);
    let plan = assembler.build_pending_block(10).unwrap();
    let PendingBody::Transactions(list) = plan.body else {
        panic!("expected transactions");
    };
    assert_eq!(list.len(), 1);
    assert_eq!(
        list[0].transaction,
        NodeTransactionContent::from(transaction(1).txn)
    );
    assert_eq!(nonce(&list[0].transaction), node_felt(0));
    assert_eq!(list[0].receipt, receipt(1, 10).receipt);
}

#[test]
fn halves_that_disagree_keep_the_position_that_came_first() {
    let mut first = StarknetLiveAssembler::new();
    first.push_transaction_with_meta(transaction(1), Some(10), Some(4));
    first.push_receipt_with_meta(receipt(1, 10), Some(6));
    let mut second = StarknetLiveAssembler::new();
    second.push_receipt_with_meta(receipt(1, 10), Some(6));
    second.push_transaction_with_meta(transaction(1), Some(10), Some(4));
    for assembler in [&mut first, &mut second] {
        assembler.push_receipt_with_meta(receipt(2, 10), Some(5));
    }
    let first = build_pending_block(&first, 10).unwrap();
    let second = build_pending_block(&second, 10).unwrap();
    assert_eq!(first.transaction_hashes, vec![felt(1), felt(2)]);
    assert_eq!(second.transaction_hashes, vec![felt(2), felt(1)]);
}

#[test]
fn transactions_do_not_affect_each_other() {
    let mut assembler = StarknetLiveAssembler::new();
    assembler.push_receipt_with_meta(receipt(1, 10), Some(0));
    assembler.push_transaction_with_meta(transaction(2), Some(10), Some(0));
    assembler.push_receipt_with_meta(receipt(3, 11), Some(0));
    let block = build_pending_block(&assembler, 10).unwrap();
    assert_eq!(block.transaction_hashes, vec![felt(1)]);
    assert_eq!(
        body_fragment(&block, TRANSACTION_FRAGMENT_ID).data.len(),
        0
    );
    assert_eq!(
        assembler.push_transaction_with_meta(transaction(1), Some(10), Some(0)),
        LiveAssemblerInsert::Updated
    );
}

#[test]
fn news_of_a_later_block_makes_a_pending_block_next() {
    let mut assembler = StarknetLiveAssembler::default();
    assert!(build_next_pending_block(&mut assembler, 9).is_none());
    assembler.push_receipt_with_meta(receipt(1, 10), None);
    let pending = build_next_pending_block(&mut assembler, 9).unwrap();
    assert_eq!(pending.transaction_hashes, vec![felt(1)]);
    // Its index alone is news.
    assembler.push_event_with_meta(emitted_event(2, 10, 0, 0));
    assembler.push_receipt_with_meta(receipt(1, 10), Some(0));
    let pending = build_next_pending_block(&mut assembler, 9).unwrap();
    assert_eq!(body_fragment(&pending, EVENT_FRAGMENT_ID).data.len(), 1);
    let pending = build_next_pending_block(&mut assembler, 9).unwrap();
    assert_eq!(receipt_hashes(&pending), vec![felt(1)]);
}

#[test]
fn a_block_known_by_events_alone_hides_later_records() {
    let mut assembler = StarknetLiveAssembler::new();
    assembler.push_event_with_meta(emitted_event(1, 10, 0, 0));
    assembler.push_receipt_with_meta(receipt(2, 11), None);
    assert_eq!(
        build_next_pending_block(&mut assembler, 9)
            .unwrap()
            .block_number,
        10
    );
    assert_eq!(
        build_next_pending_block(&mut assembler, 9)
            .unwrap()
            .block_number,
        11
    );
    assert!(build_next_pending_block(&mut assembler, 9).is_none());
}

#[test]
fn a_message_is_pushed_where_there_is_room() {
    let mut assembler = StarknetLiveAssembler::new();
    let message = StarknetLiveMessage::Receipt(NewTransactionReceiptMessage {
        receipt: receipt(1, 10),
        transaction_index: None,
    });
    assert_eq!(
        assembler.try_push_message(message.clone()),
        Some(LiveAssemblerInsert::Inserted)
    );
    assert_eq!(
        assembler.try_push_message(message),
        Some(LiveAssemblerInsert::Duplicate)
    );
    let mut event = emitted_event(1, 10, 0, 0);
    event.emitted_event.block_number = None;
    assert_eq!(
        assembler.try_push_message(StarknetLiveMessage::Event(NewEventMessage { event })),
        Some(LiveAssemblerInsert::Duplicate)
    );
    assert_eq!(
        assembler.try_push_message(StarknetLiveMessage::Transaction(NewTransactionMessage {
            transaction: transaction(1),
            block_number: None,
            transaction_index: None,
        })),
        Some(LiveAssemblerInsert::Updated)
    );
    assert_eq!(assembler.next_arrival_order(), 1);
    assert_eq!(assembler.pending_block_numbers(), vec![10]);
}

#[test]
fn a_receipt_that_differs_is_still_a_duplicate() {
    let mut assembler = StarknetLiveAssembler::new();
    assembler.push_receipt_with_meta(receipt(1, 10), Some(0));
    assert_eq!(
        assembler.push_receipt_with_meta(receipt(1, 12), Some(3)),
        LiveAssemblerInsert::Duplicate
    );
    assert_eq!(assembler.pending_block_numbers(), vec![10]);
}

#[test]
fn an_event_does_not_make_its_transaction_known() {
    let mut assembler = StarknetLiveAssembler::new();
    assembler.push_event_with_meta(emitted_event(1, 10, 0, 0));
    assert!(build_pending_block(&assembler, 10).is_none());
    assert_eq!(
        assembler.push_receipt_with_meta(receipt(1, 10), None),
        LiveAssemblerInsert::Inserted
    );
}
