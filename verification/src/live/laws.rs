//! What holds of the assembler across its operations.

use vstd::prelude::*;

use super::model::{
    self, LiveAssemblerInsert, LiveEntry, LiveEventEntry, LiveEventKey, LivePendingUpdate,
    LivePendingUpdateMode, LiveState, PendingBlockPlan, PendingBody,
};
use super::order::{self, Listed};
use crate::provider::models::{
    EmittedEventWithFinality, FieldElement, TransactionReceiptWithBlockInfo,
    TransactionWithL2Status,
};
use crate::provider::ws::StarknetLiveMessage;

verus! {

/// Every message keeps what holds of an assembler at all times.
pub proof fn law_messages_keep_the_invariant(state: LiveState, message: StarknetLiveMessage)
    requires
        state.inv(),
        state.has_room_for_message(message),
    ensures
        state.after_message(message).inv(),
{
}

/// Pruning keeps what holds of an assembler at all times.
pub proof fn law_pruning_keeps_the_invariant(state: LiveState, block_number: u64)
    requires
        state.inv(),
    ensures
        state.pruned(block_number).inv(),
{
}

/// A message that comes a second time is a duplicate, and changes nothing.
pub proof fn law_repeated_messages_are_duplicates(state: LiveState, message: StarknetLiveMessage)
    requires
        state.inv(),
    ensures
        state.after_message(message).message_result(message) == LiveAssemblerInsert::Duplicate,
        state.after_message(message).after_message(message) == state.after_message(message),
{
    let once = state.after_message(message);
    assert(once.after_message(message).entries =~= once.entries);
}

/// A message is answered as a duplicate exactly if it changes nothing.
pub proof fn law_duplicates_change_nothing(state: LiveState, message: StarknetLiveMessage)
    requires
        state.inv(),
    ensures
        state.message_result(message) == LiveAssemblerInsert::Duplicate <==> state.after_message(
            message,
        ) == state,
{
    let after = state.after_message(message);
    match message {
        StarknetLiveMessage::Transaction(message) => {
            let hash = message.transaction.hash();
            assert(after.entries[hash] == after.entries[hash]);
            if state.message_result(StarknetLiveMessage::Transaction(message))
                == LiveAssemblerInsert::Duplicate {
                assert(after.entries =~= state.entries);
            }
        },
        StarknetLiveMessage::Receipt(message) => {
            if state.learns_receipt(message.receipt, message.transaction_index) {
                assert(after.pending_updates.len() == state.pending_updates.len() + 1);
            } else {
                assert(after.entries =~= state.entries);
            }
        },
        StarknetLiveMessage::Event(message) => {
            if state.learns_event(message.event) {
                assert(after.pending_updates.len() == state.pending_updates.len() + 1);
            }
        },
    }
}

/// What came first stays: no message takes away or replaces a transaction, a receipt, a
/// position or an arrival order that is known, nor an event.
pub proof fn law_what_came_first_stays(
    state: LiveState,
    message: StarknetLiveMessage,
    hash: FieldElement,
    key: LiveEventKey,
)
    requires
        state.inv(),
    ensures
        state.entries.contains_key(hash) ==> {
            let before = state.entries[hash];
            let after = state.after_message(message).entries[hash];
            &&& state.after_message(message).entries.contains_key(hash)
            &&& before.transaction is Some ==> after.transaction == before.transaction
            &&& before.receipt is Some ==> after.receipt == before.receipt
            &&& before.block_number is Some ==> after.block_number == before.block_number
            &&& before.transaction_index is Some ==> after.transaction_index
                == before.transaction_index
            &&& after.arrival_order == before.arrival_order
        },
        state.event_entries.contains_key(key) ==> {
            &&& state.after_message(message).event_entries.contains_key(key)
            &&& state.after_message(message).event_entries[key] == state.event_entries[key]
        },
{
}

/// A transaction or a receipt with this hash is known.
pub open spec fn knows(state: LiveState, hash: FieldElement) -> bool {
    state.entries.contains_key(hash) && (state.entries[hash].transaction is Some
        || state.entries[hash].receipt is Some)
}

/// An entry is made once: the entry of a transaction that has one is the one it has, and is
/// found without a change. Any other is made empty, with the next arrival order; nothing
/// else changes, and it comes after all that is known.
pub proof fn law_entries_are_made_once(
    state: LiveState,
    hash: FieldElement,
    other: FieldElement,
    key: LiveEventKey,
)
    requires
        state.inv(),
        state.next_arrival_order < u64::MAX,
    ensures
        ({
            let entry = state.entry_or_fresh(hash);
            let after = state.with_entry(hash, entry);
            &&& state.entries.contains_key(hash) ==> entry == state.entries[hash] && after == state
            &&& !state.entries.contains_key(hash) ==> {
                &&& entry == LiveEntry::fresh(state.next_arrival_order as u64)
                &&& after.next_arrival_order == state.next_arrival_order + 1
                &&& after.entries == state.entries.insert(hash, entry)
            }
            &&& after.event_entries == state.event_entries
            &&& after.pending_updates == state.pending_updates
            &&& after.entries.contains_key(other) ==> {
                &&& after.entries[other].arrival_order < after.next_arrival_order
                &&& other != hash ==> after.entries[other].arrival_order != entry.arrival_order
            }
            &&& after.event_entries.contains_key(key) ==> {
                &&& after.event_entries[key].arrival_order < after.next_arrival_order
                &&& after.event_entries[key].arrival_order != entry.arrival_order
            }
        }),
{
    let after = state.with_entry(hash, state.entry_or_fresh(hash));
    if state.entries.contains_key(hash) {
        assert(state.entry_inv(hash));
        assert(after.entries =~= state.entries);
    }
    if state.entries.contains_key(other) {
        assert(state.entry_inv(other));
    }
    if state.event_entries.contains_key(key) {
        assert(state.event_inv(key));
    }
}

/// A receipt is answered by what was known: it is inserted if nothing was, and updates what
/// was known if there was no receipt, or if it is the first to tell the index. In any other
/// case it is a duplicate, whatever it says.
pub proof fn law_receipt_answers(
    state: LiveState,
    receipt: TransactionReceiptWithBlockInfo,
    transaction_index: Option<u64>,
)
    requires
        state.inv(),
    ensures
        model::insert_result(
            !state.entries.contains_key(receipt.hash()),
            state.learns_receipt(receipt, transaction_index),
        ) == {
            let entry = state.entries[receipt.hash()];
            if !knows(state, receipt.hash()) {
                LiveAssemblerInsert::Inserted
            } else if entry.receipt is None || entry.transaction_index is None && transaction_index
                is Some {
                LiveAssemblerInsert::Updated
            } else {
                LiveAssemblerInsert::Duplicate
            }
        },
{
    if state.entries.contains_key(receipt.hash()) {
        assert(state.entry_inv(receipt.hash()));
    }
}

/// A receipt that is a duplicate changes nothing. One that is news queues one update of its
/// block's records, behind all others, so that the block is pending. Neither touches events
/// or other transactions.
pub proof fn law_receipts_queue_their_block(
    state: LiveState,
    receipt: TransactionReceiptWithBlockInfo,
    transaction_index: Option<u64>,
)
    requires
        state.inv(),
    ensures
        !state.learns_receipt(receipt, transaction_index) ==> state.after_receipt(
            receipt,
            transaction_index,
        ) == state,
        state.learns_receipt(receipt, transaction_index) ==> {
            let after = state.after_receipt(receipt, transaction_index);
            &&& after.pending_updates == state.pending_updates.push(
                LivePendingUpdate {
                    block_number: receipt.block.number(),
                    mode: LivePendingUpdateMode::Records,
                },
            )
            &&& after.is_pending(receipt.block.number())
        },
        state.after_receipt(receipt, transaction_index).event_entries == state.event_entries,
        state.after_receipt(receipt, transaction_index).entries.remove(receipt.hash())
            == state.entries.remove(receipt.hash()),
{
    let after = state.after_receipt(receipt, transaction_index);
    assert(after.entries.remove(receipt.hash()) =~= state.entries.remove(receipt.hash()));
    if state.learns_receipt(receipt, transaction_index) {
        let last = after.pending_updates.len() - 1;
        assert(after.pending_updates[last].block_number == receipt.block.number());
    } else {
        assert(after.entries =~= state.entries);
    }
}

/// A transaction is answered by what was known: it is inserted if nothing was, and updates
/// what was known if there was no transaction, or if it is the first to tell the block or
/// the index. In any other case it is a duplicate, and changes nothing.
pub proof fn law_transaction_answers(
    state: LiveState,
    transaction: TransactionWithL2Status,
    block_number: Option<u64>,
    transaction_index: Option<u64>,
)
    requires
        state.inv(),
    ensures
        model::insert_result(
            !state.entries.contains_key(transaction.hash()),
            state.learns_transaction(transaction, block_number, transaction_index),
        ) == {
            let entry = state.entries[transaction.hash()];
            if !knows(state, transaction.hash()) {
                LiveAssemblerInsert::Inserted
            } else if entry.transaction is None || entry.block_number is None && block_number
                is Some || entry.transaction_index is None && transaction_index is Some {
                LiveAssemblerInsert::Updated
            } else {
                LiveAssemblerInsert::Duplicate
            }
        },
        !state.learns_transaction(transaction, block_number, transaction_index)
            ==> state.after_transaction(transaction, block_number, transaction_index) == state,
{
    let after = state.after_transaction(transaction, block_number, transaction_index);
    if state.entries.contains_key(transaction.hash()) {
        assert(state.entry_inv(transaction.hash()));
    }
    if !state.learns_transaction(transaction, block_number, transaction_index) {
        assert(after.entries =~= state.entries);
    }
}

/// A transaction makes no block pending, whatever block it is announced for: it queues no
/// update, and changes neither receipts nor events, nor which blocks there is something to
/// write of.
pub proof fn law_transactions_make_no_block_pending(
    state: LiveState,
    transaction: TransactionWithL2Status,
    block_number: Option<u64>,
    transaction_index: Option<u64>,
    other: u64,
    hash: FieldElement,
)
    ensures
        ({
            let after = state.after_transaction(transaction, block_number, transaction_index);
            &&& after.pending_updates == state.pending_updates
            &&& after.event_entries == state.event_entries
            &&& state.entries.contains_key(hash) ==> after.entries.contains_key(hash)
                && after.entries[hash].receipt == state.entries[hash].receipt
            &&& after.has_records(other) == state.has_records(other)
            &&& after.is_pending(other) == state.is_pending(other)
        }),
{
    let after = state.after_transaction(transaction, block_number, transaction_index);
    if state.has_records(other) {
        let hash = choose|hash: FieldElement| #[trigger]
            state.entries.contains_key(hash) && state.entries[hash].in_block(other);
        assert(after.entries.contains_key(hash));
    }
    if after.has_records(other) {
        let hash = choose|hash: FieldElement| #[trigger]
            after.entries.contains_key(hash) && after.entries[hash].in_block(other);
        assert(state.entries.contains_key(hash));
    }
    assert(after.has_events(other) == state.has_events(other));
    assert(after.is_due(other) == state.is_due(other));
}

/// An event is inserted if it says its block and none of its transaction and index was
/// known; then it is known by these, and one update of its block's events is queued behind
/// all others. In any other case it is a duplicate, and changes nothing.
pub proof fn law_event_answers(state: LiveState, event: EmittedEventWithFinality)
    ensures
        model::insert_result(true, state.learns_event(event)) == if event.emitted_event.block_number
            is Some && !state.event_entries.contains_key(LiveEventKey::of_event(event)) {
            LiveAssemblerInsert::Inserted
        } else {
            LiveAssemblerInsert::Duplicate
        },
        state.learns_event(event) ==> {
            let after = state.after_event(event);
            let key = LiveEventKey::of_event(event);
            &&& after.event_entries.contains_key(key)
            &&& after.event_entries[key].event == event
            &&& Some(after.event_entries[key].block_number) == event.emitted_event.block_number
            &&& after.pending_updates == state.pending_updates.push(
                LivePendingUpdate {
                    block_number: event.emitted_event.block_number->0,
                    mode: LivePendingUpdateMode::Events,
                },
            )
        },
        !state.learns_event(event) ==> state.after_event(event) == state,
{
}

/// Events are apart from transactions and receipts: what there is to write of the records
/// of a block stays, and a transaction is known no better for its events.
pub proof fn law_events_leave_records(
    state: LiveState,
    event: EmittedEventWithFinality,
    block_number: u64,
    plan: Option<PendingBlockPlan>,
)
    ensures
        state.after_event(event).entries == state.entries,
        state.after_event(event).plans_records(block_number, plan) == state.plans_records(
            block_number,
            plan,
        ),
{
    let after = state.after_event(event);
    assert forall|list: Seq<LiveEntry>| #[trigger]
        after.lists_records(block_number, list) == state.lists_records(block_number, list) by {}
    assert(after.has_records(block_number) == state.has_records(block_number));
    if let Some(plan) = plan {
        if state.plans_records(block_number, Some(plan)) {
            let list = choose|list: Seq<LiveEntry>| #[trigger]
                state.lists_records(block_number, list) && model::is_record_plan(
                    block_number,
                    list,
                    plan,
                );
            assert(after.lists_records(block_number, list));
        }
        if after.plans_records(block_number, Some(plan)) {
            let list = choose|list: Seq<LiveEntry>| #[trigger]
                after.lists_records(block_number, list) && model::is_record_plan(
                    block_number,
                    list,
                    plan,
                );
            assert(state.lists_records(block_number, list));
        }
    }
}

/// What a transaction and its receipt say of their position does not contradict each other
/// where it is news to `entry`, nor is the index news to an entry that has a receipt.
pub open spec fn positions_agree(
    entry: LiveEntry,
    receipt: TransactionReceiptWithBlockInfo,
    block_number: Option<u64>,
    transaction_index: Option<u64>,
    receipt_index: Option<u64>,
) -> bool {
    &&& entry.block_number is None && block_number is Some ==> block_number == Some(
        receipt.block.number(),
    )
    &&& entry.transaction_index is None && transaction_index is Some && receipt_index is Some
        ==> transaction_index == receipt_index && entry.receipt is None
}

/// A transaction and its receipt are correlated, and to the same effect whichever comes
/// first, exactly if what they say of their position agrees. Where nothing was known, the
/// first is inserted and the second updates it, in either order.
pub proof fn law_halves_come_in_either_order(
    state: LiveState,
    transaction: TransactionWithL2Status,
    receipt: TransactionReceiptWithBlockInfo,
    block_number: Option<u64>,
    transaction_index: Option<u64>,
    receipt_index: Option<u64>,
)
    requires
        state.inv(),
        transaction.hash() == receipt.hash(),
    ensures
        positions_agree(
            state.entry_or_fresh(receipt.hash()),
            receipt,
            block_number,
            transaction_index,
            receipt_index,
        ) <==> state.after_transaction(
            transaction,
            block_number,
            transaction_index,
        ).after_receipt(receipt, receipt_index) == state.after_receipt(
            receipt,
            receipt_index,
        ).after_transaction(transaction, block_number, transaction_index),
        ({
            let before = state.entry_or_fresh(receipt.hash());
            let entry = state.after_transaction(
                transaction,
                block_number,
                transaction_index,
            ).after_receipt(receipt, receipt_index).entries[receipt.hash()];
            &&& entry.receipt == Some(
                if before.receipt is None {
                    receipt
                } else {
                    before.receipt->0
                },
            )
            &&& entry.transaction == Some(
                if before.transaction is None {
                    transaction
                } else {
                    before.transaction->0
                },
            )
        }),
        !knows(state, receipt.hash()) ==> {
            let with_transaction = state.after_transaction(
                transaction,
                block_number,
                transaction_index,
            );
            let with_receipt = state.after_receipt(receipt, receipt_index);
            &&& !state.entries.contains_key(receipt.hash())
            &&& with_transaction.entries.contains_key(receipt.hash())
            &&& with_transaction.learns_receipt(receipt, receipt_index)
            &&& with_receipt.entries.contains_key(receipt.hash())
            &&& with_receipt.learns_transaction(transaction, block_number, transaction_index)
        },
{
    let hash = receipt.hash();
    let a = state.after_transaction(transaction, block_number, transaction_index).after_receipt(
        receipt,
        receipt_index,
    );
    let b = state.after_receipt(receipt, receipt_index).after_transaction(
        transaction,
        block_number,
        transaction_index,
    );
    if state.entries.contains_key(hash) {
        assert(state.entry_inv(hash));
    }
    if positions_agree(
        state.entry_or_fresh(hash),
        receipt,
        block_number,
        transaction_index,
        receipt_index,
    ) {
        assert(a.entries =~= b.entries);
    } else {
        assert(a.entries[hash] != b.entries[hash] || a.pending_updates.len()
            != b.pending_updates.len());
    }
}

/// Messages about different transactions do not affect each other's entries but for the
/// order in which they came.
pub proof fn law_transactions_are_independent(
    state: LiveState,
    message: StarknetLiveMessage,
    hash: FieldElement,
)
    requires
        match message {
            StarknetLiveMessage::Transaction(message) => message.transaction.hash()
                != hash,
            StarknetLiveMessage::Receipt(message) => message.receipt.hash() != hash,
            StarknetLiveMessage::Event(message) => true,
        },
    ensures
        state.after_message(message).entries.contains_key(hash) == state.entries.contains_key(hash),
        state.entries.contains_key(hash) ==> state.after_message(message).entries[hash]
            == state.entries[hash],
{
}

/// There is one way to list the records of a block, and one to list its events.
pub proof fn law_listings_are_unique(
    state: LiveState,
    block_number: u64,
    a: Seq<LiveEntry>,
    b: Seq<LiveEntry>,
    c: Seq<LiveEventEntry>,
    d: Seq<LiveEventEntry>,
)
    ensures
        state.lists_records(block_number, a) && state.lists_records(block_number, b) ==> a == b,
        state.lists_events(block_number, c) && state.lists_events(block_number, d) ==> c == d,
{
    if state.lists_records(block_number, a) && state.lists_records(block_number, b) {
        assert forall|item: LiveEntry| #[trigger] a.contains(item) <==> b.contains(item) by {
            if a.contains(item) {
                let i = choose|i: int| 0 <= i < a.len() && a[i] == item;
                assert(state.entries.contains_key(a[i].known_receipt().hash()));
            }
            if b.contains(item) {
                let i = choose|i: int| 0 <= i < b.len() && b[i] == item;
                assert(state.entries.contains_key(b[i].known_receipt().hash()));
            }
        }
        order::lemma_listing_is_unique(a, b);
    }
    if state.lists_events(block_number, c) && state.lists_events(block_number, d) {
        assert forall|item: LiveEventEntry| #[trigger] c.contains(item) <==> d.contains(item) by {
            if c.contains(item) {
                let i = choose|i: int| 0 <= i < c.len() && c[i] == item;
                assert(state.event_entries.contains_key(LiveEventKey::of_event(c[i].event)));
            }
            if d.contains(item) {
                let i = choose|i: int| 0 <= i < d.len() && d[i] == item;
                assert(state.event_entries.contains_key(LiveEventKey::of_event(d[i].event)));
            }
        }
        order::lemma_listing_is_unique(c, d);
    }
}

/// What there is to write of a block does not depend on how its entries came to be stored:
/// any two plans of its records say the same, and any two of its events.
pub proof fn law_plans_are_unique(
    state: LiveState,
    block_number: u64,
    a: PendingBlockPlan,
    b: PendingBlockPlan,
)
    ensures
        state.plans_records(block_number, Some(a)) && state.plans_records(block_number, Some(b))
            ==> {
            &&& a.block_number == b.block_number
            &&& a.transaction_hashes@ == b.transaction_hashes@
            &&& match (a.body, b.body) {
                (PendingBody::Transactions(c), PendingBody::Transactions(d)) => c@ == d@,
                (PendingBody::Receipts(c), PendingBody::Receipts(d)) => c@ == d@,
                _ => false,
            }
        },
        state.plans_events(block_number, Some(a)) && state.plans_events(block_number, Some(b))
            ==> {
            &&& a.block_number == b.block_number
            &&& a.transaction_hashes@ == b.transaction_hashes@
            &&& match (a.body, b.body) {
                (PendingBody::Events(c), PendingBody::Events(d)) => c@.map_values(
                    |event: EmittedEventWithFinality| event@,
                ) == d@.map_values(|event: EmittedEventWithFinality| event@),
                _ => false,
            }
        },
{
    if state.plans_records(block_number, Some(a)) && state.plans_records(block_number, Some(b)) {
        let of_a = choose|list: Seq<LiveEntry>| #[trigger]
            state.lists_records(block_number, list) && model::is_record_plan(block_number, list, a);
        let of_b = choose|list: Seq<LiveEntry>| #[trigger]
            state.lists_records(block_number, list) && model::is_record_plan(block_number, list, b);
        law_listings_are_unique(state, block_number, of_a, of_b, Seq::empty(), Seq::empty());
    }
    if state.plans_events(block_number, Some(a)) && state.plans_events(block_number, Some(b)) {
        let of_a = choose|list: Seq<LiveEventEntry>| #[trigger]
            state.lists_events(block_number, list) && model::is_event_plan(block_number, list, a);
        let of_b = choose|list: Seq<LiveEventEntry>| #[trigger]
            state.lists_events(block_number, list) && model::is_event_plan(block_number, list, b);
        law_listings_are_unique(state, block_number, Seq::empty(), Seq::empty(), of_a, of_b);
    }
}

/// The plan of a block names each transaction that has a receipt in it, once and no other,
/// and holds transactions exactly if none of them is missing.
pub proof fn law_record_plan_covers_the_block(
    state: LiveState,
    block_number: u64,
    plan: PendingBlockPlan,
)
    requires
        state.inv(),
        state.plans_records(block_number, Some(plan)),
    ensures
        plan.transaction_hashes@.no_duplicates(),
        forall|hash: FieldElement| #[trigger]
            plan.transaction_hashes@.contains(hash) <==> state.entries.contains_key(hash)
                && state.entries[hash].in_block(block_number),
        plan.body is Transactions <==> forall|hash: FieldElement| #[trigger]
            state.entries.contains_key(hash) && state.entries[hash].in_block(block_number)
                ==> state.entries[hash].transaction is Some,
        plan.body is Transactions || plan.body is Receipts,
{
    let list = choose|list: Seq<LiveEntry>| #[trigger]
        state.lists_records(block_number, list) && model::is_record_plan(block_number, list, plan);
    let hashes = plan.transaction_hashes@;
    assert forall|i: int| 0 <= i < list.len() implies #[trigger] hashes[i]
        == list[i].known_receipt().hash() by {}
    assert forall|i: int, j: int| 0 <= i < j < hashes.len() implies hashes[i] != hashes[j] by {
        assert(order::key_before(list[i].key(), list[j].key()));
    }
    assert forall|hash: FieldElement| #[trigger]
        hashes.contains(hash) <==> state.entries.contains_key(hash)
            && state.entries[hash].in_block(block_number) by {
        if hashes.contains(hash) {
            let i = choose|i: int| 0 <= i < hashes.len() && hashes[i] == hash;
            assert(list[i].in_block(block_number));
        }
        if state.entries.contains_key(hash) && state.entries[hash].in_block(block_number) {
            let i = choose|i: int| 0 <= i < list.len() && list[i] == state.entries[hash];
            assert(state.entry_inv(hash));
            assert(hashes[i] == hash);
        }
    }
    if model::all_transactions_known(list) {
        assert forall|hash: FieldElement| #[trigger]
            state.entries.contains_key(hash) && state.entries[hash].in_block(
                block_number,
            ) implies state.entries[hash].transaction is Some by {
            let i = choose|i: int| 0 <= i < list.len() && list[i] == state.entries[hash];
            assert(list[i].transaction is Some);
        }
    } else {
        let i = choose|i: int| 0 <= i < list.len() && !((#[trigger] list[i]).transaction is Some);
        assert(state.entries.contains_key(list[i].known_receipt().hash()));
    }
}

/// The plan of a block names its transactions in their order: those whose position is
/// known first, by block and index; then the others, as they came.
pub proof fn law_record_plan_is_ordered(
    state: LiveState,
    block_number: u64,
    plan: PendingBlockPlan,
    i: int,
    j: int,
)
    requires
        state.inv(),
        state.plans_records(block_number, Some(plan)),
        0 <= i < j < plan.transaction_hashes@.len(),
    ensures
        ({
            let a = state.entries[plan.transaction_hashes@[i]];
            let b = state.entries[plan.transaction_hashes@[j]];
            let position_is_known = |entry: LiveEntry|
                entry.block_number is Some && entry.transaction_index is Some;
            &&& position_is_known(b) ==> position_is_known(a)
            &&& position_is_known(a) && position_is_known(b) ==> {
                ||| a.block_number->0 < b.block_number->0
                ||| a.block_number == b.block_number && a.transaction_index->0
                    < b.transaction_index->0
                ||| a.block_number == b.block_number && a.transaction_index == b.transaction_index
                    && a.arrival_order < b.arrival_order
            }
            &&& !position_is_known(a) && !position_is_known(b) ==> a.arrival_order < b.arrival_order
        }),
{
    let list = choose|list: Seq<LiveEntry>| #[trigger]
        state.lists_records(block_number, list) && model::is_record_plan(block_number, list, plan);
    assert(plan.transaction_hashes@[i] == list[i].known_receipt().hash());
    assert(plan.transaction_hashes@[j] == list[j].known_receipt().hash());
    assert(order::key_before(list[i].key(), list[j].key()));
}

/// The plan of a block's events holds each event of the block, once and no other, in the
/// order of its transactions, and in that of each transaction.
pub proof fn law_event_plan_covers_the_block(
    state: LiveState,
    block_number: u64,
    plan: PendingBlockPlan,
)
    requires
        state.inv(),
        state.plans_events(block_number, Some(plan)),
    ensures
        plan.body matches PendingBody::Events(events) && {
            &&& events@.len() == plan.transaction_hashes@.len()
            &&& forall|i: int|
                0 <= i < events@.len() ==> (#[trigger] events@[i]).emitted_event.transaction_hash
                    == plan.transaction_hashes@[i]
            &&& forall|i: int|
                0 <= i < events@.len() ==> {
                    let key = LiveEventKey::of_event(#[trigger] events@[i]);
                    &&& state.event_entries.contains_key(key)
                    &&& state.event_entries[key].event@ == events@[i]@
                    &&& state.event_entries[key].block_number == block_number
                }
            &&& forall|key: LiveEventKey| #[trigger]
                state.event_entries.contains_key(key) && state.event_entries[key].block_number
                    == block_number ==> exists|i: int|
                    0 <= i < events@.len() && LiveEventKey::of_event(#[trigger] events@[i]) == key
            &&& forall|i: int, j: int|
                0 <= i < j < events@.len() ==> {
                    let a = (#[trigger] events@[i]).emitted_event;
                    let b = (#[trigger] events@[j]).emitted_event;
                    &&& LiveEventKey::of_event(events@[i]) != LiveEventKey::of_event(events@[j])
                    &&& a.transaction_index <= b.transaction_index
                    &&& a.transaction_index == b.transaction_index ==> a.event_index
                        <= b.event_index
                }
        },
{
    let list = choose|list: Seq<LiveEventEntry>| #[trigger]
        state.lists_events(block_number, list) && model::is_event_plan(block_number, list, plan);
    let events = plan.body->Events_0@;
    let views = events.map_values(|event: EmittedEventWithFinality| event@);
    assert(views == list.map_values(|entry: LiveEventEntry| entry.event@));
    assert(views.len() == list.len() && events.len() == list.len());
    assert forall|i: int| 0 <= i < list.len() implies (#[trigger] events[i])@ == list[i].event@
        && state.event_inv(LiveEventKey::of_event(list[i].event)) by {
        assert(views[i] == list[i].event@);
        assert(state.event_entries.contains_key(LiveEventKey::of_event(list[i].event)));
    }
    assert forall|i: int| 0 <= i < events.len() implies (#[trigger]
    events[i]).emitted_event.transaction_hash == plan.transaction_hashes@[i] by {
        assert(events[i]@.emitted_event.transaction_hash
            == list[i].event@.emitted_event.transaction_hash);
    }
    assert forall|i: int| 0 <= i < events.len() implies {
        let key = LiveEventKey::of_event(#[trigger] events[i]);
        &&& state.event_entries.contains_key(key)
        &&& state.event_entries[key].event@ == events[i]@
        &&& state.event_entries[key].block_number == block_number
    } by {
        assert(events[i]@.emitted_event.transaction_hash
            == list[i].event@.emitted_event.transaction_hash);
        assert(LiveEventKey::of_event(events[i]) == LiveEventKey::of_event(list[i].event));
    }
    assert forall|key: LiveEventKey| #[trigger]
        state.event_entries.contains_key(key) && state.event_entries[key].block_number
            == block_number implies exists|i: int|
        0 <= i < events.len() && LiveEventKey::of_event(#[trigger] events[i]) == key by {
        let i = choose|i: int| 0 <= i < list.len() && list[i] == state.event_entries[key];
        assert(state.event_inv(key));
        assert(events[i]@.emitted_event.transaction_hash
            == list[i].event@.emitted_event.transaction_hash);
        assert(LiveEventKey::of_event(events[i]) == key);
    }
    assert forall|i: int, j: int| 0 <= i < j < events.len() implies {
        let a = (#[trigger] events[i]).emitted_event;
        let b = (#[trigger] events[j]).emitted_event;
        &&& LiveEventKey::of_event(events[i]) != LiveEventKey::of_event(events[j])
        &&& a.transaction_index <= b.transaction_index
        &&& a.transaction_index == b.transaction_index ==> a.event_index <= b.event_index
    } by {
        assert(order::key_before(list[i].key(), list[j].key()));
        assert(events[i]@.emitted_event == list[i].event@.emitted_event);
        assert(events[j]@.emitted_event == list[j].event@.emitted_event);
        assert(list[i].transaction_index == events[i].emitted_event.transaction_index);
        assert(list[j].transaction_index == events[j].emitted_event.transaction_index);
        assert(list[i].event_index == events[i].emitted_event.event_index);
        assert(list[j].event_index == events[j].emitted_event.event_index);
        if LiveEventKey::of_event(events[i]) == LiveEventKey::of_event(events[j]) {
            assert(LiveEventKey::of_event(list[i].event) == LiveEventKey::of_event(list[j].event));
        }
    }
}

/// Nothing is known of a block once the acceptance of it, or of a later one, was seen.
pub proof fn law_pruned_blocks_are_gone(state: LiveState, block_number: u64, other: u64)
    requires
        other <= block_number,
    ensures
        !state.pruned(block_number).is_pending(other),
{
    let pruned = state.pruned(block_number);
    if pruned.is_due(other) {
        let i = choose|i: int|
            0 <= i < pruned.pending_updates.len() && (
            #[trigger] pruned.pending_updates[i]).block_number == other;
        state.pending_updates.lemma_filter_pred(
            |update: LivePendingUpdate| update.block_number > block_number,
            i,
        );
    }
}

/// Pruning leaves later blocks as they are, and transactions that wait for a receipt.
pub proof fn law_pruning_leaves_later_blocks(
    state: LiveState,
    block_number: u64,
    other: u64,
    plan: Option<PendingBlockPlan>,
    hash: FieldElement,
)
    requires
        other > block_number,
    ensures
        state.pruned(block_number).is_pending(other) == state.is_pending(other),
        state.pruned(block_number).plans_records(other, plan) == state.plans_records(other, plan),
        state.pruned(block_number).plans_events(other, plan) == state.plans_events(other, plan),
        state.entries.contains_key(hash) && state.entries[hash].receipt is None ==> {
            &&& state.pruned(block_number).entries.contains_key(hash)
            &&& state.pruned(block_number).entries[hash] == state.entries[hash]
        },
{
    let pruned = state.pruned(block_number);
    lemma_pruned_contents(state, block_number, other, plan);
    if pruned.is_due(other) {
        let i = choose|i: int|
            0 <= i < pruned.pending_updates.len() && (
            #[trigger] pruned.pending_updates[i]).block_number == other;
        let update = pruned.pending_updates[i];
        assert(pruned.pending_updates.contains(update));
        lemma_later_updates(state.pending_updates, block_number, update);
        let j = choose|j: int|
            0 <= j < state.pending_updates.len() && state.pending_updates[j] == update;
        assert(state.pending_updates[j].block_number == other);
    }
    if state.is_due(other) {
        let i = choose|i: int|
            0 <= i < state.pending_updates.len() && (
            #[trigger] state.pending_updates[i]).block_number == other;
        let update = state.pending_updates[i];
        assert(state.pending_updates.contains(update));
        lemma_later_updates(state.pending_updates, block_number, update);
        let j = choose|j: int|
            0 <= j < pruned.pending_updates.len() && pruned.pending_updates[j] == update;
        assert(pruned.pending_updates[j].block_number == other);
    }
}

/// What there is to write of a later block is what there was.
proof fn lemma_pruned_contents(
    state: LiveState,
    block_number: u64,
    other: u64,
    plan: Option<PendingBlockPlan>,
)
    requires
        other > block_number,
    ensures
        state.pruned(block_number).has_records(other) == state.has_records(other),
        state.pruned(block_number).has_events(other) == state.has_events(other),
        state.pruned(block_number).plans_records(other, plan) == state.plans_records(other, plan),
        state.pruned(block_number).plans_events(other, plan) == state.plans_events(other, plan),
{
    let pruned = state.pruned(block_number);
    if state.has_records(other) {
        let hash = choose|hash: FieldElement| #[trigger]
            state.entries.contains_key(hash) && state.entries[hash].in_block(other);
        assert(pruned.entries.contains_key(hash));
    }
    if pruned.has_records(other) {
        let hash = choose|hash: FieldElement| #[trigger]
            pruned.entries.contains_key(hash) && pruned.entries[hash].in_block(other);
        assert(state.entries.contains_key(hash));
    }
    if state.has_events(other) {
        let key = choose|key: LiveEventKey| #[trigger]
            state.event_entries.contains_key(key) && state.event_entries[key].block_number == other;
        assert(pruned.event_entries.contains_key(key));
    }
    if pruned.has_events(other) {
        let key = choose|key: LiveEventKey| #[trigger]
            pruned.event_entries.contains_key(key) && pruned.event_entries[key].block_number
                == other;
        assert(state.event_entries.contains_key(key));
    }
    assert forall|list: Seq<LiveEntry>| #[trigger]
        pruned.lists_records(other, list) == state.lists_records(other, list) by {
        if state.lists_records(other, list) {
            assert forall|i: int| 0 <= i < list.len() implies {
                let hash = (#[trigger] list[i]).known_receipt().hash();
                pruned.entries.contains_key(hash) && pruned.entries[hash] == list[i]
            } by {}
            assert forall|hash: FieldElement| #[trigger]
                pruned.entries.contains_key(hash) && pruned.entries[hash].in_block(
                    other,
                ) implies list.contains(pruned.entries[hash]) by {
                assert(state.entries.contains_key(hash));
            }
        }
        if pruned.lists_records(other, list) {
            assert forall|hash: FieldElement| #[trigger]
                state.entries.contains_key(hash) && state.entries[hash].in_block(
                    other,
                ) implies list.contains(state.entries[hash]) by {
                assert(pruned.entries.contains_key(hash));
            }
        }
    }
    assert forall|list: Seq<LiveEventEntry>| #[trigger]
        pruned.lists_events(other, list) == state.lists_events(other, list) by {
        if state.lists_events(other, list) {
            assert forall|i: int| 0 <= i < list.len() implies {
                let key = LiveEventKey::of_event((#[trigger] list[i]).event);
                pruned.event_entries.contains_key(key) && pruned.event_entries[key] == list[i]
            } by {}
            assert forall|key: LiveEventKey| #[trigger]
                pruned.event_entries.contains_key(key) && pruned.event_entries[key].block_number
                    == other implies list.contains(pruned.event_entries[key]) by {
                assert(state.event_entries.contains_key(key));
            }
        }
        if pruned.lists_events(other, list) {
            assert forall|key: LiveEventKey| #[trigger]
                state.event_entries.contains_key(key) && state.event_entries[key].block_number
                    == other implies list.contains(state.event_entries[key]) by {
                assert(pruned.event_entries.contains_key(key));
            }
        }
    }
    if let Some(plan) = plan {
        if state.plans_records(other, Some(plan)) {
            let list = choose|list: Seq<LiveEntry>| #[trigger]
                state.lists_records(other, list) && model::is_record_plan(other, list, plan);
            assert(pruned.lists_records(other, list));
        }
        if pruned.plans_records(other, Some(plan)) {
            let list = choose|list: Seq<LiveEntry>| #[trigger]
                pruned.lists_records(other, list) && model::is_record_plan(other, list, plan);
            assert(state.lists_records(other, list));
        }
        if state.plans_events(other, Some(plan)) {
            let list = choose|list: Seq<LiveEventEntry>| #[trigger]
                state.lists_events(other, list) && model::is_event_plan(other, list, plan);
            assert(pruned.lists_events(other, list));
        }
        if pruned.plans_events(other, Some(plan)) {
            let list = choose|list: Seq<LiveEventEntry>| #[trigger]
                pruned.lists_events(other, list) && model::is_event_plan(other, list, plan);
            assert(state.lists_events(other, list));
        }
    }
}

/// The updates of later blocks are those updates that are of later blocks.
proof fn lemma_later_updates(
    updates: Seq<LivePendingUpdate>,
    block_number: u64,
    update: LivePendingUpdate,
)
    ensures
        model::later_updates(updates, block_number).contains(update) <==> updates.contains(update)
            && update.block_number > block_number,
{
    let later = |update: LivePendingUpdate| update.block_number > block_number;
    let kept = updates.filter(later);
    assert(kept == model::later_updates(updates, block_number));
    if kept.contains(update) {
        let i = choose|i: int| 0 <= i < kept.len() && kept[i] == update;
        updates.lemma_filter_pred(later, i);
        updates.lemma_filter_contains_rev(later, update);
    }
    if updates.contains(update) && update.block_number > block_number {
        let i = choose|i: int| 0 <= i < updates.len() && updates[i] == update;
        updates.lemma_filter_contains(later, i);
    }
}

/// Pruning twice is pruning through the later of the two blocks.
pub proof fn law_pruning_composes(state: LiveState, first: u64, second: u64)
    ensures
        state.pruned(first).pruned(second) == state.pruned(
            if first <= second {
                second
            } else {
                first
            },
        ),
{
    let both = if first <= second {
        second
    } else {
        first
    };
    let twice = state.pruned(first).pruned(second);
    let once = state.pruned(both);
    assert(twice.entries =~= once.entries);
    assert(twice.event_entries =~= once.event_entries);
    lemma_filters_compose(state.pending_updates, first, second, both);
}

proof fn lemma_filters_compose(
    updates: Seq<LivePendingUpdate>,
    first: u64,
    second: u64,
    both: u64,
)
    requires
        both == if first <= second {
            second
        } else {
            first
        },
    ensures
        model::later_updates(model::later_updates(updates, first), second)
            == model::later_updates(updates, both),
    decreases updates.len(),
{
    reveal(Seq::filter);
    let a = |update: LivePendingUpdate| update.block_number > first;
    let b = |update: LivePendingUpdate| update.block_number > second;
    if updates.len() > 0 {
        let front = updates.drop_last();
        lemma_filters_compose(front, first, second, both);
        if a(updates.last()) {
            let kept = front.filter(a).push(updates.last());
            assert(updates.filter(a) == kept);
            assert(kept.drop_last() =~= front.filter(a));
        }
    }
}

/// The place that [`LiveState::next_update`] finds is the first that leads to a block.
pub(crate) proof fn lemma_next_update(state: LiveState, after: u64, from: int)
    requires
        0 <= from <= state.pending_updates.len(),
    ensures
        from <= state.next_update(after, from) <= state.pending_updates.len(),
        ({
            let at = state.next_update(after, from);
            at < state.pending_updates.len() ==> leads(state, state.pending_updates[at], after)
        }),
        forall|i: int|
            from <= i < state.next_update(after, from) ==> !leads(
                state,
                #[trigger] state.pending_updates[i],
                after,
            ),
    decreases state.pending_updates.len() - from,
{
    if from < state.pending_updates.len() && !leads(state, state.pending_updates[from], after) {
        lemma_next_update(state, after, from + 1);
    }
}

/// The update leads to a block after `after` that has content.
pub open spec fn leads(state: LiveState, update: LivePendingUpdate, after: u64) -> bool {
    update.block_number > after && state.has_content(update)
}

/// The next pending block is a block after the one that was asked for.
pub proof fn law_next_block_is_later(
    state: LiveState,
    after: u64,
    left: LiveState,
    plan: PendingBlockPlan,
)
    requires
        state.plans_next(after, left, Some(plan)),
    ensures
        plan.block_number > after,
{
    lemma_next_update(state, after, 0);
}

/// Asking for the next pending block touches nothing but the updates: it uses up one at
/// least, as long as there is one.
pub proof fn law_next_block_uses_updates_up(
    state: LiveState,
    after: u64,
    left: LiveState,
    plan: Option<PendingBlockPlan>,
)
    requires
        state.plans_next(after, left, plan),
    ensures
        left.entries == state.entries,
        left.event_entries == state.event_entries,
        left.next_arrival_order == state.next_arrival_order,
        state.pending_updates.len() > 0 ==> left.pending_updates.len()
            < state.pending_updates.len(),
        exists|count: int|
            0 <= count <= state.pending_updates.len() && left.pending_updates
                == #[trigger] state.pending_updates.skip(count),
{
    lemma_next_update(state, after, 0);
    let at = state.next_update(after, 0);
    if at < state.pending_updates.len() {
        assert(left.pending_updates == state.pending_updates.skip(at + 1));
    } else {
        assert(left.pending_updates == state.pending_updates.skip(at));
    }
}

/// As soon as a receipt, or its index, is news to its block, the block can be written:
/// whether the transaction is there or not, a pending block is next. Where no update that
/// was queued before leads to a block, it is the block of the receipt, and names it.
pub proof fn law_receipts_are_emitted(
    state: LiveState,
    receipt: TransactionReceiptWithBlockInfo,
    transaction_index: Option<u64>,
    after: u64,
    left: LiveState,
    plan: Option<PendingBlockPlan>,
)
    requires
        state.inv(),
        state.learns_receipt(receipt, transaction_index),
        state.entry_or_fresh(receipt.hash()).receipt matches Some(known)
            ==> known.block.number() == receipt.block.number(),
        receipt.block.number() > after,
        state.after_receipt(receipt, transaction_index).plans_next(after, left, plan),
    ensures
        state.after_receipt(receipt, transaction_index).has_records(receipt.block.number()),
        plan is Some,
        none_leads(
            state.after_receipt(receipt, transaction_index),
            state.pending_updates,
            after,
        ) ==> {
            &&& state.after_receipt(receipt, transaction_index).plans_records(
                receipt.block.number(),
                plan,
            )
            &&& plan->0.block_number == receipt.block.number()
            &&& plan->0.transaction_hashes@.contains(receipt.hash())
            &&& left.pending_updates.len() == 0
        },
{
    let now = state.after_receipt(receipt, transaction_index);
    let number = receipt.block.number();
    let last = now.pending_updates.len() - 1;
    assert(now.entries.contains_key(receipt.hash()));
    assert(now.entries[receipt.hash()].in_block(number));
    assert(leads(now, now.pending_updates[last], after));
    lemma_next_update(now, after, 0);
    if none_leads(now, state.pending_updates, after) {
        assert(now.pending_updates.drop_last() =~= state.pending_updates);
        lemma_last_is_next(now, state.pending_updates, after);
        let list = choose|list: Seq<LiveEntry>| #[trigger]
            now.lists_records(number, list) && model::is_record_plan(number, list, plan->0);
        let entry = now.entries[receipt.hash()];
        assert(list.contains(entry));
        let i = choose|i: int| 0 <= i < list.len() && list[i] == entry;
        if state.entries.contains_key(receipt.hash()) {
            assert(state.entry_inv(receipt.hash()));
        }
        assert(plan->0.transaction_hashes@[i] == list[i].known_receipt().hash());
    }
}

/// No update of `updates` leads to a block after `after`.
pub open spec fn none_leads(
    state: LiveState,
    updates: Seq<LivePendingUpdate>,
    after: u64,
) -> bool {
    forall|i: int| 0 <= i < updates.len() ==> !leads(state, #[trigger] updates[i], after)
}

/// An update behind others that lead nowhere is the next one, if it leads to a block.
proof fn lemma_last_is_next(state: LiveState, earlier: Seq<LivePendingUpdate>, after: u64)
    requires
        state.pending_updates.len() == earlier.len() + 1,
        state.pending_updates.drop_last() == earlier,
        none_leads(state, earlier, after),
        leads(state, state.pending_updates.last(), after),
    ensures
        state.next_update(after, 0) == earlier.len(),
{
    lemma_next_update(state, after, 0);
    let at = state.next_update(after, 0);
    if at < earlier.len() {
        assert(earlier[at] == state.pending_updates[at]);
    }
}

/// As soon as an event is there, its block can be written: a pending block is next. Where no
/// update that was queued before leads to a block, it is the block of the event, and holds
/// it.
pub proof fn law_events_are_emitted(
    state: LiveState,
    event: EmittedEventWithFinality,
    after: u64,
    left: LiveState,
    plan: Option<PendingBlockPlan>,
)
    requires
        state.inv(),
        state.learns_event(event),
        event.emitted_event.block_number->0 > after,
        state.after_event(event).plans_next(after, left, plan),
    ensures
        state.after_event(event).has_events(event.emitted_event.block_number->0),
        plan is Some,
        none_leads(state.after_event(event), state.pending_updates, after) ==> {
            &&& state.after_event(event).plans_events(event.emitted_event.block_number->0, plan)
            &&& plan->0.block_number == event.emitted_event.block_number->0
            &&& plan->0.transaction_hashes@.contains(event.emitted_event.transaction_hash)
            &&& plan->0.body matches PendingBody::Events(events) && exists|i: int|
                0 <= i < events@.len() && (#[trigger] events@[i])@ == event@
            &&& left.pending_updates.len() == 0
        },
{
    let now = state.after_event(event);
    let number = event.emitted_event.block_number->0;
    let key = LiveEventKey::of_event(event);
    let last = now.pending_updates.len() - 1;
    assert(now.event_entries.contains_key(key));
    assert(leads(now, now.pending_updates[last], after));
    lemma_next_update(now, after, 0);
    if none_leads(now, state.pending_updates, after) {
        assert(now.pending_updates.drop_last() =~= state.pending_updates);
        lemma_last_is_next(now, state.pending_updates, after);
        let list = choose|list: Seq<LiveEventEntry>| #[trigger]
            now.lists_events(number, list) && model::is_event_plan(number, list, plan->0);
        let entry = now.event_entries[key];
        assert(list.contains(entry));
        let i = choose|i: int| 0 <= i < list.len() && list[i] == entry;
        assert(plan->0.transaction_hashes@[i]
            == list[i].event.emitted_event.transaction_hash);
        let events = plan->0.body->Events_0@;
        let views = events.map_values(|event: EmittedEventWithFinality| event@);
        assert(views == list.map_values(|entry: LiveEventEntry| entry.event@));
        assert(views.len() == list.len());
        assert(views[i] == list[i].event@);
        assert(events[i]@ == event@);
    }
}

/// Pruning through a block does not change what is next after it: neither the plan, nor,
/// but for what was pruned, what is left.
pub proof fn law_pruning_keeps_what_is_next(
    state: LiveState,
    block_number: u64,
    after: u64,
    left: LiveState,
    plan: Option<PendingBlockPlan>,
)
    requires
        block_number <= after,
        state.plans_next(after, left, plan),
    ensures
        state.pruned(block_number).plans_next(after, left.pruned(block_number), plan),
{
    let pruned = state.pruned(block_number);
    let later = |update: LivePendingUpdate| update.block_number > block_number;
    let updates = state.pending_updates;
    let at = state.next_update(after, 0);
    lemma_next_update(state, after, 0);
    lemma_next_update(pruned, after, 0);
    let pruned_at = pruned.next_update(after, 0);
    assert forall|update: LivePendingUpdate| #[trigger]
        leads(pruned, update, after) == leads(state, update, after) by {
        if update.block_number > after {
            lemma_pruned_contents(state, block_number, update.block_number, plan);
        }
    }
    if at < updates.len() {
        let head = updates.take(at);
        let tail = updates.skip(at + 1);
        let place = head.filter(later).len() as int;
        assert(updates =~= head.push(updates[at]) + tail);
        Seq::filter_distributes_over_add(head.push(updates[at]), tail, later);
        assert(head.push(updates[at]).filter(later) == head.filter(later).push(updates[at])) by {
            reveal(Seq::filter);
            assert(head.push(updates[at]).drop_last() =~= head);
        }
        assert(pruned.pending_updates == head.filter(later).push(updates[at]) + tail.filter(later));
        assert(pruned.pending_updates[place] == updates[at]);
        assert forall|i: int| 0 <= i < place implies !leads(
            pruned,
            #[trigger] pruned.pending_updates[i],
            after,
        ) by {
            let update = head.filter(later)[i];
            assert(model::later_updates(head, block_number).contains(update));
            lemma_later_updates(head, block_number, update);
            let j = choose|j: int| 0 <= j < head.len() && head[j] == update;
            assert(state.pending_updates[j] == update);
            assert(pruned.pending_updates[i] == update);
        }
        assert(leads(pruned, pruned.pending_updates[place], after));
        assert(pruned_at == place);
        assert(pruned.pending_updates.skip(place + 1) =~= tail.filter(later));
        assert(left.pruned(block_number) == pruned.without_updates(place + 1));
        lemma_pruned_contents(state, block_number, updates[at].block_number, plan);
    } else {
        if pruned_at < pruned.pending_updates.len() {
            let update = pruned.pending_updates[pruned_at];
            assert(pruned.pending_updates.contains(update));
            lemma_later_updates(updates, block_number, update);
            let j = choose|j: int| 0 <= j < updates.len() && updates[j] == update;
            assert(leads(state, state.pending_updates[j], after));
        }
        assert(updates.skip(at) =~= Seq::empty());
        assert(updates.skip(at).filter(later) =~= Seq::empty()) by {
            reveal(Seq::filter);
        }
        assert(pruned.pending_updates.skip(pruned_at) =~= Seq::empty());
        let pruned_left = left.pruned(block_number);
        assert(pruned_left == pruned.without_updates(pruned_at));
        assert forall|other: u64| other > after implies #[trigger] pruned_left.is_pending(other)
            == left.is_pending(other) by {
            law_pruning_leaves_later_blocks(
                left,
                block_number,
                other,
                plan,
                arbitrary(),
            );
        }
        if exists|number: u64| #[trigger]
            left.is_first_pending(after, number) && left.plans_records(number, plan) {
            let number = choose|number: u64| #[trigger]
                left.is_first_pending(after, number) && left.plans_records(number, plan);
            law_pruning_leaves_later_blocks(left, block_number, number, plan, arbitrary());
            assert(pruned_left.is_first_pending(after, number));
        }
    }
}

} // verus!
