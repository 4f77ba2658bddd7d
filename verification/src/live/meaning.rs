//! What the operations of the assembler come to, in terms of what it holds, of what comes
//! in, and of what is planned.

use vstd::prelude::*;

use super::laws;
use super::model::{
    self, LiveAssemblerInsert, LiveEntry, LiveEventEntry, LiveEventKey, LivePendingUpdate,
    LivePendingUpdateMode, LiveState, PendingBlockPlan, PendingBody,
};
use super::order::{self, Listed};
use crate::provider::models::{
    self, EmittedEventWithFinality, FieldElement, ReceiptBlock, TransactionReceiptWithBlockInfo,
    TransactionWithL2Status,
};
use crate::provider::ws::{
    NewEventMessage, NewTransactionMessage, NewTransactionReceiptMessage, StarknetLiveMessage,
};

verus! {

/// A receipt is in the block that it is attached to, confirmed or not; transactions and
/// receipts go by the hashes that their contents have.
pub proof fn law_records_go_by_their_contents(
    block_number: u64,
    block_hash: FieldElement,
    receipt: TransactionReceiptWithBlockInfo,
    transaction: TransactionWithL2Status,
)
    ensures
        (ReceiptBlock::PreConfirmed { block_number }).number() == block_number,
        (ReceiptBlock::Block { block_hash, block_number }).number() == block_number,
        receipt.hash() == models::receipt_hash(receipt.receipt),
        transaction.hash() == models::transaction_hash(transaction.txn),
{
}

/// At first nothing is known, and nothing is to be planned.
pub proof fn law_nothing_is_known_at_first(hash: FieldElement, key: LiveEventKey)
    ensures
        !LiveState::empty().entries.contains_key(hash),
        !LiveState::empty().event_entries.contains_key(key),
        LiveState::empty().pending_updates.len() == 0,
        LiveState::empty().next_arrival_order == 0,
{
}

/// Two events are the same event exactly if they are of the same transaction and have the
/// same index in it.
pub proof fn law_events_go_by_transaction_and_index(
    a: EmittedEventWithFinality,
    b: EmittedEventWithFinality,
)
    ensures
        LiveEventKey::of_event(a) == LiveEventKey::of_event(b) <==> a.emitted_event.transaction_hash
            == b.emitted_event.transaction_hash && a.emitted_event.event_index
            == b.emitted_event.event_index,
        LiveEventKey::of_event(a).transaction_hash == a.emitted_event.transaction_hash,
        LiveEventKey::of_event(a).event_index == a.emitted_event.event_index,
{
}

/// What brings no news is a duplicate; news is inserted or updates, by whether its subject
/// was new.
pub proof fn law_answers_tell_news(was_new: bool)
    ensures
        model::insert_result(was_new, false) == LiveAssemblerInsert::Duplicate,
        model::insert_result(true, true) == LiveAssemblerInsert::Inserted,
        model::insert_result(false, true) == LiveAssemblerInsert::Updated,
{
}

/// A message is taken in as what it carries.
pub proof fn law_messages_are_taken_in_by_their_kind(
    state: LiveState,
    transaction: NewTransactionMessage,
    receipt: NewTransactionReceiptMessage,
    event: NewEventMessage,
)
    ensures
        state.after_message(StarknetLiveMessage::Transaction(transaction))
            == state.after_transaction(
            transaction.transaction,
            transaction.block_number,
            transaction.transaction_index,
        ),
        state.after_message(StarknetLiveMessage::Receipt(receipt)) == state.after_receipt(
            receipt.receipt,
            receipt.transaction_index,
        ),
        state.after_message(StarknetLiveMessage::Event(event)) == state.after_event(event.event),
        state.message_result(StarknetLiveMessage::Transaction(transaction))
            == model::insert_result(
            !state.entries.contains_key(transaction.transaction.hash()),
            state.learns_transaction(
                transaction.transaction,
                transaction.block_number,
                transaction.transaction_index,
            ),
        ),
        state.message_result(StarknetLiveMessage::Receipt(receipt)) == model::insert_result(
            !state.entries.contains_key(receipt.receipt.hash()),
            state.learns_receipt(receipt.receipt, receipt.transaction_index),
        ),
        state.message_result(StarknetLiveMessage::Event(event)) == model::insert_result(
            true,
            state.learns_event(event.event),
        ),
{
}

/// A message may be pushed as long as the arrival orders are not used up, and after that if
/// it brings nothing that needs a new one.
pub proof fn law_room_is_needed_for_new_entries_only(state: LiveState, message: StarknetLiveMessage)
    requires
        state.inv(),
    ensures
        state.has_room_for_message(message) <==> state.next_arrival_order < u64::MAX || match message {
            StarknetLiveMessage::Transaction(found) => state.entries.contains_key(
                models::transaction_hash(found.transaction.txn),
            ),
            StarknetLiveMessage::Receipt(found) => state.entries.contains_key(
                models::receipt_hash(found.receipt.receipt),
            ),
            StarknetLiveMessage::Event(found) => found.event.emitted_event.block_number is None
                || state.event_entries.contains_key(
                LiveEventKey {
                    transaction_hash: found.event.emitted_event.transaction_hash,
                    event_index: found.event.emitted_event.event_index,
                },
            ),
        },
        state.has_room_for_message(message) ==> state.after_message(message).next_arrival_order
            <= u64::MAX,
{
}

/// Taking a transaction in: the answer says whether its hash was known and whether it brings
/// news, and the entry of its hash has what it had, filled in with what came. Nothing else
/// changes.
pub proof fn law_transaction_is_taken_in(
    state: LiveState,
    transaction: TransactionWithL2Status,
    block_number: Option<u64>,
    transaction_index: Option<u64>,
    after: LiveState,
    result: LiveAssemblerInsert,
    other: FieldElement,
)
    requires
        state.inv(),
        after == state.after_transaction(transaction, block_number, transaction_index),
        result == model::insert_result(
            !state.entries.contains_key(transaction.hash()),
            state.learns_transaction(transaction, block_number, transaction_index),
        ),
    ensures
        ({
            let hash = models::transaction_hash(transaction.txn);
            let known = state.entries.contains_key(hash);
            let before = state.entries[hash];
            let entry = after.entries[hash];
            &&& result == if !known {
                LiveAssemblerInsert::Inserted
            } else if before.transaction is None || before.block_number is None && block_number
                is Some || before.transaction_index is None && transaction_index is Some {
                LiveAssemblerInsert::Updated
            } else {
                LiveAssemblerInsert::Duplicate
            }
            &&& result is Duplicate ==> after == state
            &&& after.entries.contains_key(hash)
            &&& entry.transaction == if known && before.transaction is Some {
                before.transaction
            } else {
                Some(transaction)
            }
            &&& entry.receipt == if known {
                before.receipt
            } else {
                None
            }
            &&& entry.block_number == if known && before.block_number is Some {
                before.block_number
            } else {
                block_number
            }
            &&& entry.transaction_index == if known && before.transaction_index is Some {
                before.transaction_index
            } else {
                transaction_index
            }
            &&& entry.arrival_order == if known {
                before.arrival_order as int
            } else {
                state.next_arrival_order
            }
            &&& after.next_arrival_order == if known {
                state.next_arrival_order
            } else {
                state.next_arrival_order + 1
            }
            &&& other != hash ==> after.entries.contains_key(other) == state.entries.contains_key(
                other,
            )
            &&& other != hash && state.entries.contains_key(other) ==> after.entries[other]
                == state.entries[other]
            &&& after.event_entries == state.event_entries
            &&& after.pending_updates == state.pending_updates
        }),
{
    laws::law_transaction_answers(state, transaction, block_number, transaction_index);
}

/// Taking a receipt in: the answer says whether its hash was known and whether it brings
/// news, and the entry of its hash has what it had, filled in with what came. Where it
/// brings news, its block is queued behind all others. Nothing else changes.
pub proof fn law_receipt_is_taken_in(
    state: LiveState,
    receipt: TransactionReceiptWithBlockInfo,
    transaction_index: Option<u64>,
    after: LiveState,
    result: LiveAssemblerInsert,
    other: FieldElement,
)
    requires
        state.inv(),
        after == state.after_receipt(receipt, transaction_index),
        result == model::insert_result(
            !state.entries.contains_key(receipt.hash()),
            state.learns_receipt(receipt, transaction_index),
        ),
    ensures
        ({
            let hash = models::receipt_hash(receipt.receipt);
            let block_number = match receipt.block {
                ReceiptBlock::PreConfirmed { block_number } => block_number,
                ReceiptBlock::Block { block_hash: _, block_number } => block_number,
            };
            let known = state.entries.contains_key(hash);
            let before = state.entries[hash];
            let entry = after.entries[hash];
            &&& result == if !known {
                LiveAssemblerInsert::Inserted
            } else if before.receipt is None || before.transaction_index is None
                && transaction_index is Some {
                LiveAssemblerInsert::Updated
            } else {
                LiveAssemblerInsert::Duplicate
            }
            &&& result is Duplicate ==> after == state
            &&& after.entries.contains_key(hash)
            &&& entry.receipt == if known && before.receipt is Some {
                before.receipt
            } else {
                Some(receipt)
            }
            &&& entry.transaction == if known {
                before.transaction
            } else {
                None
            }
            &&& entry.block_number == if known && before.block_number is Some {
                before.block_number
            } else {
                Some(block_number)
            }
            &&& entry.transaction_index == if known && before.transaction_index is Some {
                before.transaction_index
            } else {
                transaction_index
            }
            &&& entry.arrival_order == if known {
                before.arrival_order as int
            } else {
                state.next_arrival_order
            }
            &&& after.next_arrival_order == if known {
                state.next_arrival_order
            } else {
                state.next_arrival_order + 1
            }
            &&& after.pending_updates == if result is Duplicate {
                state.pending_updates
            } else {
                state.pending_updates.push(
                    LivePendingUpdate { block_number, mode: LivePendingUpdateMode::Records },
                )
            }
            &&& other != hash ==> after.entries.contains_key(other) == state.entries.contains_key(
                other,
            )
            &&& other != hash && state.entries.contains_key(other) ==> after.entries[other]
                == state.entries[other]
            &&& after.event_entries == state.event_entries
        }),
{
    laws::law_receipt_answers(state, receipt, transaction_index);
    laws::law_receipts_queue_their_block(state, receipt, transaction_index);
}

/// Taking an event in: it is a duplicate if it says no block, or if an event of the same
/// transaction with the same index is held; then nothing changes. Any other event is held
/// from then on, whole and under its block, and its block is queued behind all others;
/// nothing else changes.
pub proof fn law_event_is_taken_in(
    state: LiveState,
    event: EmittedEventWithFinality,
    after: LiveState,
    result: LiveAssemblerInsert,
    other: LiveEventKey,
)
    requires
        state.inv(),
        after == state.after_event(event),
        result == model::insert_result(true, state.learns_event(event)),
    ensures
        ({
            let source = event.emitted_event;
            let key = LiveEventKey {
                transaction_hash: source.transaction_hash,
                event_index: source.event_index,
            };
            let held = exists|key: LiveEventKey| #[trigger]
                state.event_entries.contains_key(key)
                    && state.event_entries[key].event.emitted_event.transaction_hash
                    == source.transaction_hash
                    && state.event_entries[key].event.emitted_event.event_index
                    == source.event_index;
            &&& result == if source.block_number is Some && !held {
                LiveAssemblerInsert::Inserted
            } else {
                LiveAssemblerInsert::Duplicate
            }
            &&& result is Duplicate ==> after == state
            &&& result is Inserted ==> {
                let entry = after.event_entries[key];
                &&& !state.event_entries.contains_key(key)
                &&& after.event_entries.contains_key(key)
                &&& entry.event == event
                &&& Some(entry.block_number) == source.block_number
                &&& entry.transaction_index == source.transaction_index
                &&& entry.event_index == source.event_index
                &&& entry.arrival_order == state.next_arrival_order
                &&& after.next_arrival_order == state.next_arrival_order + 1
                &&& after.pending_updates == state.pending_updates.push(
                    LivePendingUpdate {
                        block_number: source.block_number->0,
                        mode: LivePendingUpdateMode::Events,
                    },
                )
                &&& after.entries == state.entries
            }
            &&& other != key ==> after.event_entries.contains_key(other)
                == state.event_entries.contains_key(other)
            &&& state.event_entries.contains_key(other) ==> after.event_entries[other]
                == state.event_entries[other]
        }),
{
    let source = event.emitted_event;
    let key = LiveEventKey {
        transaction_hash: source.transaction_hash,
        event_index: source.event_index,
    };
    if state.event_entries.contains_key(key) {
        assert(state.event_inv(key));
    }
    assert forall|key: LiveEventKey| #[trigger]
        state.event_entries.contains_key(key)
            && state.event_entries[key].event.emitted_event.transaction_hash
            == source.transaction_hash && state.event_entries[key].event.emitted_event.event_index
            == source.event_index implies state.event_entries.contains_key(
        LiveEventKey::of_event(event),
    ) by {
        assert(state.event_inv(key));
    }
}

/// A position is filled in where it was not known, part by part, and that is news.
pub proof fn law_positions_are_filled_in(
    entry: LiveEntry,
    block_number: Option<u64>,
    transaction_index: Option<u64>,
)
    ensures
        ({
            let filled = entry.with_position(block_number, transaction_index);
            &&& filled.transaction == entry.transaction
            &&& filled.receipt == entry.receipt
            &&& filled.arrival_order == entry.arrival_order
            &&& entry.block_number is Some ==> filled.block_number == entry.block_number
            &&& entry.block_number is None ==> filled.block_number == block_number
            &&& entry.transaction_index is Some ==> filled.transaction_index
                == entry.transaction_index
            &&& entry.transaction_index is None ==> filled.transaction_index == transaction_index
            &&& entry.learns_position(block_number, transaction_index) <==> filled != entry
        }),
{
}

/// Pruning through a block drops the receipts and events of that block and of those before
/// it, and nothing else; what it keeps, it keeps as it was.
pub proof fn law_pruning_drops_what_is_accepted(
    state: LiveState,
    block_number: u64,
    hash: FieldElement,
    key: LiveEventKey,
)
    ensures
        state.pruned(block_number).entries.contains_key(hash) <==> state.entries.contains_key(hash)
            && (state.entries[hash].receipt is None
            || state.entries[hash].receipt->0.block.number() > block_number),
        state.pruned(block_number).entries.contains_key(hash) ==> state.pruned(
            block_number,
        ).entries[hash] == state.entries[hash],
        state.pruned(block_number).event_entries.contains_key(key)
            <==> state.event_entries.contains_key(key) && state.event_entries[key].block_number
            > block_number,
        state.pruned(block_number).event_entries.contains_key(key) ==> state.pruned(
            block_number,
        ).event_entries[key] == state.event_entries[key],
        state.pruned(block_number).next_arrival_order == state.next_arrival_order,
{
}

/// Pruning keeps the queued updates of later blocks in their order, each as often as it was
/// queued: an update behind the others stays behind the others, or goes.
pub proof fn law_pruning_keeps_the_queue_in_order(
    state: LiveState,
    block_number: u64,
    update: LivePendingUpdate,
)
    ensures
        (LiveState { pending_updates: Seq::empty(), ..state }).pruned(
            block_number,
        ).pending_updates.len() == 0,
        (LiveState { pending_updates: state.pending_updates.push(update), ..state }).pruned(
            block_number,
        ).pending_updates == if update.block_number > block_number {
            state.pruned(block_number).pending_updates.push(update)
        } else {
            state.pruned(block_number).pending_updates
        },
{
    reveal(Seq::filter);
    let more = state.pending_updates.push(update);
    assert(more.drop_last() =~= state.pending_updates);
    assert(more.last() == update);
}

/// The pending blocks are those with a receipt, those with an event, and those that are
/// queued; they are listed in ascending order.
pub proof fn law_pending_blocks_are_listed(state: LiveState, numbers: Seq<u64>, number: u64)
    requires
        order::ascends(numbers),
        forall|number: u64| #[trigger] numbers.contains(number) <==> state.is_pending(number),
    ensures
        numbers.contains(number) <==> {
            ||| exists|hash: FieldElement| #[trigger]
                state.entries.contains_key(hash) && state.entries[hash].receipt is Some
                    && state.entries[hash].receipt->0.block.number() == number
            ||| exists|key: LiveEventKey| #[trigger]
                state.event_entries.contains_key(key) && state.event_entries[key].block_number
                    == number
            ||| exists|i: int|
                0 <= i < state.pending_updates.len() && (
                #[trigger] state.pending_updates[i]).block_number == number
        },
        forall|i: int, j: int| 0 <= i < j < numbers.len() ==> numbers[i] < numbers[j],
{
    assert(numbers.contains(number) <==> state.is_pending(number));
    if state.has_records(number) {
        let hash = choose|hash: FieldElement| #[trigger]
            state.entries.contains_key(hash) && state.entries[hash].in_block(number);
        assert(state.entries.contains_key(hash));
        assert(state.entries[hash].receipt is Some);
    }
    if exists|hash: FieldElement| #[trigger]
        state.entries.contains_key(hash) && state.entries[hash].receipt is Some
            && state.entries[hash].receipt->0.block.number() == number {
        let hash = choose|hash: FieldElement| #[trigger]
            state.entries.contains_key(hash) && state.entries[hash].receipt is Some
                && state.entries[hash].receipt->0.block.number() == number;
        assert(state.entries[hash].in_block(number));
    }
}

/// What there is to write of the records of a block: nothing if no receipt is in it. Else
/// each transaction with a receipt in it, once, and for each of them one item: its content
/// and its receipt if no transaction of the block is missing, else its receipt.
pub proof fn law_records_of_a_block(
    state: LiveState,
    block_number: u64,
    plan: Option<PendingBlockPlan>,
)
    requires
        state.inv(),
        state.plans_records(block_number, plan),
    ensures
        plan is None <==> forall|hash: FieldElement| #[trigger]
            state.entries.contains_key(hash) && state.entries[hash].receipt is Some
                ==> state.entries[hash].receipt->0.block.number() != block_number,
        plan matches Some(plan) ==> {
            let hashes = plan.transaction_hashes@;
            &&& plan.block_number == block_number
            &&& forall|i: int, j: int|
                0 <= i < j < hashes.len() ==> #[trigger] hashes[i] != #[trigger] hashes[j]
            &&& forall|hash: FieldElement| #[trigger]
                hashes.contains(hash) <==> state.entries.contains_key(hash)
                    && state.entries[hash].receipt is Some
                    && state.entries[hash].receipt->0.block.number() == block_number
            &&& match plan.body {
                PendingBody::Transactions(items) => {
                    &&& items@.len() == hashes.len()
                    &&& forall|i: int|
                        #![trigger hashes[i]]
                        #![trigger items@[i]]
                        0 <= i < hashes.len() ==> {
                            let entry = state.entries[hashes[i]];
                            &&& entry.transaction is Some
                            &&& items@[i].transaction == models::transaction_content(
                                entry.transaction->0.txn,
                            )
                            &&& items@[i].receipt == entry.receipt->0.receipt
                        }
                },
                PendingBody::Receipts(items) => {
                    &&& items@.len() == hashes.len()
                    &&& forall|i: int|
                        #![trigger hashes[i]]
                        #![trigger items@[i]]
                        0 <= i < hashes.len() ==> items@[i]
                            == state.entries[hashes[i]].receipt->0.receipt
                    &&& exists|i: int|
                        0 <= i < hashes.len() && state.entries[
                        #[trigger] hashes[i]].transaction is None
                },
                PendingBody::Events(_) => false,
            }
        },
{
    if let Some(found) = plan {
        laws::law_record_plan_covers_the_block(state, block_number, found);
        let list = choose|list: Seq<LiveEntry>| #[trigger]
            state.lists_records(block_number, list) && model::is_record_plan(
                block_number,
                list,
                found,
            );
        let hashes = found.transaction_hashes@;
        assert(hashes.len() == list.len());
        assert forall|i: int| 0 <= i < list.len() implies #[trigger] hashes[i]
            == list[i].known_receipt().hash() && state.entries[hashes[i]] == list[i]
            && list[i].receipt is Some by {
            assert(list[i].in_block(block_number));
        }
        assert forall|hash: FieldElement| #[trigger]
            hashes.contains(hash) <==> state.entries.contains_key(hash)
                && state.entries[hash].receipt is Some
                && state.entries[hash].receipt->0.block.number() == block_number by {}
        let witness = choose|hash: FieldElement| #[trigger]
            state.entries.contains_key(hash) && state.entries[hash].in_block(block_number);
        assert(state.entries.contains_key(witness));
        if model::all_transactions_known(list) {
            let items = found.body->Transactions_0@;
            assert(items.len() == list.len());
            assert forall|i: int| 0 <= i < list.len() implies #[trigger] items[i]
                == model::transaction_with_receipt(list[i]) by {}
            assert forall|i: int|
                #![trigger hashes[i]]
                #![trigger items[i]]
                0 <= i < hashes.len() implies {
                let entry = state.entries[hashes[i]];
                &&& entry.transaction is Some
                &&& items[i].transaction == models::transaction_content(entry.transaction->0.txn)
                &&& items[i].receipt == entry.receipt->0.receipt
            } by {
                assert(state.entries[hashes[i]] == list[i]);
                assert(list[i].transaction is Some);
            }
        } else {
            let items = found.body->Receipts_0@;
            assert(items.len() == list.len());
            assert forall|i: int|
                #![trigger hashes[i]]
                #![trigger items[i]]
                0 <= i < hashes.len() implies items[i]
                == state.entries[hashes[i]].receipt->0.receipt by {
                assert(state.entries[hashes[i]] == list[i]);
            }
            let i = choose|i: int|
                0 <= i < list.len() && !((#[trigger] list[i]).transaction is Some);
            assert(state.entries[hashes[i]].transaction is None);
        }
    } else {
        assert forall|hash: FieldElement| #[trigger]
            state.entries.contains_key(hash) && state.entries[hash].receipt
                is Some implies state.entries[hash].receipt->0.block.number() != block_number by {
            if state.entries[hash].receipt->0.block.number() == block_number {
                assert(state.entries[hash].in_block(block_number));
                assert(state.has_records(block_number));
            }
        }
    }
}

/// What there is to write of the events of a block: nothing if it has none. Else each of
/// them, whole and once, with the hash of its transaction, by transaction and by place in
/// the transaction; where that leaves it open, as they came.
pub proof fn law_events_of_a_block(
    state: LiveState,
    block_number: u64,
    plan: Option<PendingBlockPlan>,
)
    requires
        state.inv(),
        state.plans_events(block_number, plan),
    ensures
        plan is None <==> forall|key: LiveEventKey| #[trigger]
            state.event_entries.contains_key(key)
                ==> state.event_entries[key].event.emitted_event.block_number != Some(block_number),
        plan matches Some(plan) ==> {
            &&& plan.block_number == block_number
            &&& plan.body matches PendingBody::Events(items) && {
                &&& items@.len() == plan.transaction_hashes@.len()
                &&& forall|i: int|
                    0 <= i < items@.len() ==> {
                        let item = (#[trigger] items@[i]).emitted_event;
                        let key = LiveEventKey {
                            transaction_hash: item.transaction_hash,
                            event_index: item.event_index,
                        };
                        let held = state.event_entries[key].event;
                        &&& plan.transaction_hashes@[i] == item.transaction_hash
                        &&& state.event_entries.contains_key(key)
                        &&& item.block_number == Some(block_number)
                        &&& item.from_address == held.emitted_event.from_address
                        &&& item.keys@ == held.emitted_event.keys@
                        &&& item.data@ == held.emitted_event.data@
                        &&& item.block_hash == held.emitted_event.block_hash
                        &&& item.block_number == held.emitted_event.block_number
                        &&& item.transaction_index == held.emitted_event.transaction_index
                        &&& items@[i].finality_status == held.finality_status
                    }
                &&& forall|key: LiveEventKey| #[trigger]
                    state.event_entries.contains_key(key)
                        && state.event_entries[key].event.emitted_event.block_number == Some(
                        block_number,
                    ) ==> exists|i: int|
                        0 <= i < items@.len() && (
                        #[trigger] items@[i]).emitted_event.transaction_hash == key.transaction_hash
                            && items@[i].emitted_event.event_index == key.event_index
                &&& forall|i: int, j: int|
                    0 <= i < j < items@.len() ==> {
                        let a = (#[trigger] items@[i]).emitted_event;
                        let b = (#[trigger] items@[j]).emitted_event;
                        let a_key = LiveEventKey {
                            transaction_hash: a.transaction_hash,
                            event_index: a.event_index,
                        };
                        let b_key = LiveEventKey {
                            transaction_hash: b.transaction_hash,
                            event_index: b.event_index,
                        };
                        ||| a.transaction_index < b.transaction_index
                        ||| a.transaction_index == b.transaction_index && a.event_index
                            < b.event_index
                        ||| a.transaction_index == b.transaction_index && a.event_index
                            == b.event_index && state.event_entries[a_key].arrival_order
                            < state.event_entries[b_key].arrival_order
                    }
            }
        },
{
    assert forall|key: LiveEventKey| #[trigger]
        state.event_entries.contains_key(key) implies state.event_inv(key) by {}
    if let Some(found) = plan {
        let list = choose|list: Seq<LiveEventEntry>| #[trigger]
            state.lists_events(block_number, list) && model::is_event_plan(
                block_number,
                list,
                found,
            );
        let items = found.body->Events_0@;
        let views = items.map_values(|event: EmittedEventWithFinality| event@);
        assert(views == list.map_values(|entry: LiveEventEntry| entry.event@));
        assert(views.len() == list.len() && items.len() == list.len());
        assert(found.transaction_hashes@.len() == list.len());
        assert forall|i: int| 0 <= i < list.len() implies (#[trigger] items[i])@ == list[i].event@
            && {
            let key = LiveEventKey {
                transaction_hash: items[i].emitted_event.transaction_hash,
                event_index: items[i].emitted_event.event_index,
            };
            &&& state.event_entries.contains_key(key)
            &&& state.event_entries[key] == list[i]
            &&& list[i].transaction_index == items[i].emitted_event.transaction_index
            &&& list[i].event_index == items[i].emitted_event.event_index
            &&& items[i].emitted_event.block_number == Some(block_number)
            &&& found.transaction_hashes@[i] == items[i].emitted_event.transaction_hash
        } by {
            assert(views[i] == list[i].event@);
            assert(items[i]@ == list[i].event@);
            assert(items[i]@.emitted_event == list[i].event@.emitted_event);
            assert(state.event_entries.contains_key(LiveEventKey::of_event(list[i].event)));
            assert(state.event_inv(LiveEventKey::of_event(list[i].event)));
            assert(found.transaction_hashes@[i]
                == list[i].event.emitted_event.transaction_hash);
        }
        assert forall|key: LiveEventKey| #[trigger]
            state.event_entries.contains_key(key)
                && state.event_entries[key].event.emitted_event.block_number == Some(
                block_number,
            ) implies exists|i: int|
            0 <= i < items.len() && (#[trigger] items[i]).emitted_event.transaction_hash
                == key.transaction_hash && items[i].emitted_event.event_index == key.event_index by {
            assert(state.event_inv(key));
            assert(list.contains(state.event_entries[key]));
            let i = choose|i: int| 0 <= i < list.len() && list[i] == state.event_entries[key];
            assert(items[i]@ == list[i].event@);
            assert(items[i]@.emitted_event == list[i].event@.emitted_event);
        }
        assert forall|i: int, j: int| 0 <= i < j < items.len() implies {
            let a = (#[trigger] items[i]).emitted_event;
            let b = (#[trigger] items[j]).emitted_event;
            ||| a.transaction_index < b.transaction_index
            ||| a.transaction_index == b.transaction_index && a.event_index < b.event_index
            ||| a.transaction_index == b.transaction_index && a.event_index == b.event_index
                && list[i].arrival_order < list[j].arrival_order
        } by {
            assert(order::key_before(list[i].key(), list[j].key()));
            assert(items[i]@ == list[i].event@ && items[j]@ == list[j].event@);
        }
        let witness = choose|key: LiveEventKey| #[trigger]
            state.event_entries.contains_key(key) && state.event_entries[key].block_number
                == block_number;
        assert(state.event_inv(witness));
    } else {
        assert forall|key: LiveEventKey| #[trigger]
            state.event_entries.contains_key(
                key,
            ) implies state.event_entries[key].event.emitted_event.block_number != Some(
            block_number,
        ) by {
            assert(state.event_inv(key));
            if state.event_entries[key].block_number == block_number {
                assert(state.has_events(block_number));
            }
        }
    }
}

/// Which updates lead to no block, said by what is held.
proof fn lemma_leads_nowhere(state: LiveState, after: u64, count: int)
    requires
        0 <= count <= state.pending_updates.len(),
        forall|i: int|
            0 <= i < count && (#[trigger] state.pending_updates[i]).block_number > after
                ==> match state.pending_updates[i].mode {
                LivePendingUpdateMode::Events => forall|key: LiveEventKey| #[trigger]
                    state.event_entries.contains_key(key) ==> state.event_entries[key].block_number
                        != state.pending_updates[i].block_number,
                LivePendingUpdateMode::Records => forall|hash: FieldElement| #[trigger]
                    state.entries.contains_key(hash) && state.entries[hash].receipt is Some
                        ==> state.entries[hash].receipt->0.block.number()
                        != state.pending_updates[i].block_number,
            },
    ensures
        forall|i: int|
            0 <= i < count ==> !laws::leads(state, #[trigger] state.pending_updates[i], after),
{
    assert forall|i: int| 0 <= i < count implies !laws::leads(
        state,
        #[trigger] state.pending_updates[i],
        after,
    ) by {
        let update = state.pending_updates[i];
        if laws::leads(state, update, after) {
            match update.mode {
                LivePendingUpdateMode::Events => {
                    let key = choose|key: LiveEventKey| #[trigger]
                        state.event_entries.contains_key(key)
                            && state.event_entries[key].block_number == update.block_number;
                    assert(state.event_entries.contains_key(key));
                },
                LivePendingUpdateMode::Records => {
                    let hash = choose|hash: FieldElement| #[trigger]
                        state.entries.contains_key(hash) && state.entries[hash].in_block(
                            update.block_number,
                        );
                    assert(state.entries.contains_key(hash));
                    assert(state.entries[hash].receipt is Some);
                },
            }
        }
    }
}

/// The oldest update that is about a later block and has something to show is the one that
/// is planned for, by its own kind: an update of records where there is a receipt in its
/// block gives the records of that block.
pub proof fn law_next_block_has_the_queued_records(
    state: LiveState,
    after: u64,
    left: LiveState,
    plan: Option<PendingBlockPlan>,
    at: int,
    hash: FieldElement,
)
    requires
        state.inv(),
        state.plans_next(after, left, plan),
        0 <= at < state.pending_updates.len(),
        forall|i: int|
            0 <= i < at && (#[trigger] state.pending_updates[i]).block_number > after
                ==> match state.pending_updates[i].mode {
                LivePendingUpdateMode::Events => forall|key: LiveEventKey| #[trigger]
                    state.event_entries.contains_key(key) ==> state.event_entries[key].block_number
                        != state.pending_updates[i].block_number,
                LivePendingUpdateMode::Records => forall|hash: FieldElement| #[trigger]
                    state.entries.contains_key(hash) && state.entries[hash].receipt is Some
                        ==> state.entries[hash].receipt->0.block.number()
                        != state.pending_updates[i].block_number,
            },
        state.pending_updates[at].block_number > after,
        state.pending_updates[at].mode is Records,
        state.entries.contains_key(hash),
        state.entries[hash].receipt is Some,
        state.entries[hash].receipt->0.block.number() == state.pending_updates[at].block_number,
    ensures
        ({
            let number = state.pending_updates[at].block_number;
            &&& plan is Some
            &&& plan->0.block_number == number
            &&& plan->0.body is Transactions || plan->0.body is Receipts
            &&& plan->0.body is Transactions <==> forall|hash: FieldElement| #[trigger]
                state.entries.contains_key(hash) && state.entries[hash].receipt is Some
                    && state.entries[hash].receipt->0.block.number() == number
                    ==> state.entries[hash].transaction is Some
            &&& forall|hash: FieldElement| #[trigger]
                plan->0.transaction_hashes@.contains(hash) <==> state.entries.contains_key(hash)
                    && state.entries[hash].receipt is Some
                    && state.entries[hash].receipt->0.block.number() == number
            &&& state.plans_records(number, plan)
            &&& left.pending_updates == state.pending_updates.skip(at + 1)
            &&& left.entries == state.entries
            &&& left.event_entries == state.event_entries
            &&& left.next_arrival_order == state.next_arrival_order
        }),
{
    let update = state.pending_updates[at];
    lemma_leads_nowhere(state, after, at);
    assert(state.entries[hash].in_block(update.block_number));
    assert(laws::leads(state, update, after));
    laws::lemma_next_update(state, after, 0);
    assert(state.next_update(after, 0) == at);
    law_records_of_a_block(state, update.block_number, plan);
    laws::law_record_plan_covers_the_block(state, update.block_number, plan->0);
    lemma_kind_of_records(state, update.block_number, plan->0);
}

/// The same of an update of events where there is an event in its block: it gives the events
/// of that block, each of them.
pub proof fn law_next_block_has_the_queued_events(
    state: LiveState,
    after: u64,
    left: LiveState,
    plan: Option<PendingBlockPlan>,
    at: int,
    key: LiveEventKey,
)
    requires
        state.inv(),
        state.plans_next(after, left, plan),
        0 <= at < state.pending_updates.len(),
        forall|i: int|
            0 <= i < at && (#[trigger] state.pending_updates[i]).block_number > after
                ==> match state.pending_updates[i].mode {
                LivePendingUpdateMode::Events => forall|key: LiveEventKey| #[trigger]
                    state.event_entries.contains_key(key) ==> state.event_entries[key].block_number
                        != state.pending_updates[i].block_number,
                LivePendingUpdateMode::Records => forall|hash: FieldElement| #[trigger]
                    state.entries.contains_key(hash) && state.entries[hash].receipt is Some
                        ==> state.entries[hash].receipt->0.block.number()
                        != state.pending_updates[i].block_number,
            },
        state.pending_updates[at].block_number > after,
        state.pending_updates[at].mode is Events,
        state.event_entries.contains_key(key),
        state.event_entries[key].block_number == state.pending_updates[at].block_number,
    ensures
        ({
            let number = state.pending_updates[at].block_number;
            &&& plan is Some
            &&& plan->0.block_number == number
            &&& plan->0.body matches PendingBody::Events(items) && {
                &&& items@.len() == plan->0.transaction_hashes@.len()
                &&& exists|i: int|
                    0 <= i < items@.len() && (#[trigger] items@[i]).emitted_event.transaction_hash
                        == key.transaction_hash && items@[i].emitted_event.event_index
                        == key.event_index
            }
            &&& state.plans_events(number, plan)
            &&& left.pending_updates == state.pending_updates.skip(at + 1)
            &&& left.entries == state.entries
            &&& left.event_entries == state.event_entries
            &&& left.next_arrival_order == state.next_arrival_order
        }),
{
    let update = state.pending_updates[at];
    lemma_leads_nowhere(state, after, at);
    assert(state.event_inv(key));
    assert(laws::leads(state, update, after));
    laws::lemma_next_update(state, after, 0);
    assert(state.next_update(after, 0) == at);
    law_events_of_a_block(state, update.block_number, plan);
}

/// Where no queued update leads to a later block, and the lowest later block that anything
/// is held of has a receipt, the records of that block are planned, never its events; and
/// the queue is empty afterwards.
pub proof fn law_without_updates_the_first_block_is_next(
    state: LiveState,
    after: u64,
    left: LiveState,
    plan: Option<PendingBlockPlan>,
    number: u64,
    hash: FieldElement,
)
    requires
        state.inv(),
        state.plans_next(after, left, plan),
        forall|i: int|
            0 <= i < state.pending_updates.len() && (#[trigger] state.pending_updates[i]).block_number > after
                ==> match state.pending_updates[i].mode {
                LivePendingUpdateMode::Events => forall|key: LiveEventKey| #[trigger]
                    state.event_entries.contains_key(key) ==> state.event_entries[key].block_number
                        != state.pending_updates[i].block_number,
                LivePendingUpdateMode::Records => forall|hash: FieldElement| #[trigger]
                    state.entries.contains_key(hash) && state.entries[hash].receipt is Some
                        ==> state.entries[hash].receipt->0.block.number()
                        != state.pending_updates[i].block_number,
            },
        number > after,
        forall|other: FieldElement| #[trigger]
            state.entries.contains_key(other) && state.entries[other].receipt is Some
                ==> state.entries[other].receipt->0.block.number() <= after
                || state.entries[other].receipt->0.block.number() >= number,
        forall|other: LiveEventKey| #[trigger]
            state.event_entries.contains_key(other) ==> state.event_entries[other].block_number
                <= after || state.event_entries[other].block_number >= number,
        state.entries.contains_key(hash),
        state.entries[hash].receipt is Some,
        state.entries[hash].receipt->0.block.number() == number,
    ensures
        ({
            &&& plan is Some
            &&& plan->0.block_number == number
            &&& plan->0.body is Transactions || plan->0.body is Receipts
            &&& plan->0.body is Transactions <==> forall|hash: FieldElement| #[trigger]
                state.entries.contains_key(hash) && state.entries[hash].receipt is Some
                    && state.entries[hash].receipt->0.block.number() == number
                    ==> state.entries[hash].transaction is Some
            &&& forall|hash: FieldElement| #[trigger]
                plan->0.transaction_hashes@.contains(hash) <==> state.entries.contains_key(hash)
                    && state.entries[hash].receipt is Some
                    && state.entries[hash].receipt->0.block.number() == number
            &&& state.plans_records(number, plan)
            &&& left.pending_updates.len() == 0
            &&& left.entries == state.entries
            &&& left.event_entries == state.event_entries
            &&& left.next_arrival_order == state.next_arrival_order
        }),
{
    lemma_leads_nowhere(state, after, state.pending_updates.len() as int);
    laws::lemma_next_update(state, after, 0);
    assert(state.next_update(after, 0) == state.pending_updates.len());
    assert(left.pending_updates.len() == 0);
    assert(left.entries[hash].in_block(number));
    assert(left.has_records(number));
    assert(left.is_pending(number));
    lemma_first_pending(left, after, plan, number);
    assert(left.inv());
    law_records_of_a_block(left, number, plan);
    laws::law_record_plan_covers_the_block(left, number, plan->0);
    lemma_kind_of_records(left, number, plan->0);
    state.lemma_updates_aside(
        left,
        LivePendingUpdate { block_number: number, mode: LivePendingUpdateMode::Records },
        plan,
    );
}

/// Where no queued update leads to a later block, and of the lowest later block that
/// anything is held of there are events alone, nothing is planned; nor is it where nothing
/// is held of any later block.
pub proof fn law_without_updates_events_are_not_planned_again(
    state: LiveState,
    after: u64,
    left: LiveState,
    plan: Option<PendingBlockPlan>,
    number: Option<u64>,
    key: LiveEventKey,
)
    requires
        state.inv(),
        state.plans_next(after, left, plan),
        forall|i: int|
            0 <= i < state.pending_updates.len() && (#[trigger] state.pending_updates[i]).block_number > after
                ==> match state.pending_updates[i].mode {
                LivePendingUpdateMode::Events => forall|key: LiveEventKey| #[trigger]
                    state.event_entries.contains_key(key) ==> state.event_entries[key].block_number
                        != state.pending_updates[i].block_number,
                LivePendingUpdateMode::Records => forall|hash: FieldElement| #[trigger]
                    state.entries.contains_key(hash) && state.entries[hash].receipt is Some
                        ==> state.entries[hash].receipt->0.block.number()
                        != state.pending_updates[i].block_number,
            },
        forall|other: FieldElement| #[trigger]
            state.entries.contains_key(other) && state.entries[other].receipt is Some
                ==> state.entries[other].receipt->0.block.number() <= after || number is Some
                && state.entries[other].receipt->0.block.number() > number->0,
        forall|other: LiveEventKey| #[trigger]
            state.event_entries.contains_key(other) ==> state.event_entries[other].block_number
                <= after || number is Some && state.event_entries[other].block_number >= number->0,
        number is Some ==> number->0 > after && state.event_entries.contains_key(key)
            && state.event_entries[key].block_number == number->0,
    ensures
        plan is None,
        left.pending_updates.len() == 0,
        left.entries == state.entries,
        left.event_entries == state.event_entries,
        left.next_arrival_order == state.next_arrival_order,
{
    lemma_leads_nowhere(state, after, state.pending_updates.len() as int);
    laws::lemma_next_update(state, after, 0);
    assert(state.next_update(after, 0) == state.pending_updates.len());
    assert(left.pending_updates.len() == 0);
    if let Some(found) = number {
        assert(left.has_events(found));
        assert(left.is_pending(found));
        lemma_first_pending(left, after, plan, found);
        if plan is Some {
            let hash = choose|hash: FieldElement| #[trigger]
                left.entries.contains_key(hash) && left.entries[hash].in_block(found);
            assert(state.entries.contains_key(hash));
            assert(state.entries[hash].receipt is Some);
        }
    } else {
        assert forall|other: u64| other > after implies !#[trigger] left.is_pending(other) by {
            if left.has_records(other) {
                let hash = choose|hash: FieldElement| #[trigger]
                    left.entries.contains_key(hash) && left.entries[hash].in_block(other);
                assert(state.entries.contains_key(hash));
                assert(state.entries[hash].receipt is Some);
            }
            if left.has_events(other) {
                let key = choose|key: LiveEventKey| #[trigger]
                    left.event_entries.contains_key(key) && left.event_entries[key].block_number
                        == other;
                assert(state.event_entries.contains_key(key));
            }
        }
        if plan is Some {
            let first = choose|first: u64| #[trigger]
                left.is_first_pending(after, first) && left.plans_records(first, plan);
            assert(left.is_pending(first));
        }
    }
}

/// Without updates, the first pending block is the lowest block that anything is held of.
proof fn lemma_first_pending(
    state: LiveState,
    after: u64,
    plan: Option<PendingBlockPlan>,
    number: u64,
)
    requires
        state.plans_first_pending(after, plan),
        state.pending_updates.len() == 0,
        number > after,
        state.is_pending(number),
        forall|other: FieldElement| #[trigger]
            state.entries.contains_key(other) && state.entries[other].receipt is Some
                ==> state.entries[other].receipt->0.block.number() <= after
                || state.entries[other].receipt->0.block.number() >= number,
        forall|other: LiveEventKey| #[trigger]
            state.event_entries.contains_key(other) ==> state.event_entries[other].block_number
                <= after || state.event_entries[other].block_number >= number,
    ensures
        state.plans_records(number, plan),
{
    assert(exists|first: u64| #[trigger]
        state.is_first_pending(after, first) && state.plans_records(first, plan));
    let first = choose|first: u64| #[trigger]
        state.is_first_pending(after, first) && state.plans_records(first, plan);
    assert(state.is_pending(first));
    if first < number {
        if state.has_records(first) {
            let hash = choose|hash: FieldElement| #[trigger]
                state.entries.contains_key(hash) && state.entries[hash].in_block(first);
            assert(state.entries.contains_key(hash));
            assert(state.entries[hash].receipt is Some);
        }
        if state.has_events(first) {
            let key = choose|key: LiveEventKey| #[trigger]
                state.event_entries.contains_key(key) && state.event_entries[key].block_number
                    == first;
            assert(state.event_entries.contains_key(key));
        }
        assert(false);
    }
}

/// The kind of a record plan, said by what is held.
proof fn lemma_kind_of_records(state: LiveState, block_number: u64, plan: PendingBlockPlan)
    requires
        state.inv(),
        state.plans_records(block_number, Some(plan)),
    ensures
        plan.body is Transactions <==> forall|hash: FieldElement| #[trigger]
            state.entries.contains_key(hash) && state.entries[hash].receipt is Some
                && state.entries[hash].receipt->0.block.number() == block_number
                ==> state.entries[hash].transaction is Some,
{
    law_records_of_a_block(state, block_number, Some(plan));
    let hashes = plan.transaction_hashes@;
    match plan.body {
        PendingBody::Transactions(items) => {
            assert forall|hash: FieldElement| #[trigger]
                state.entries.contains_key(hash) && state.entries[hash].receipt is Some
                    && state.entries[hash].receipt->0.block.number()
                    == block_number implies state.entries[hash].transaction is Some by {
                assert(hashes.contains(hash));
                let i = choose|i: int| 0 <= i < hashes.len() && hashes[i] == hash;
                assert(state.entries[hashes[i]].transaction is Some);
            }
        },
        _ => {
            let i = choose|i: int|
                0 <= i < hashes.len() && state.entries[#[trigger] hashes[i]].transaction is None;
            assert(hashes.contains(hashes[i]));
            assert(state.entries.contains_key(hashes[i]));
        },
    }
}

} // verus!
