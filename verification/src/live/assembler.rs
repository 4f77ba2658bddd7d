//! The assembler of pending blocks.

use std::collections::VecDeque;

use vstd::prelude::*;

use super::model::{
    self, LiveAssemblerInsert, LiveEntry, LiveEventEntry, LiveEventKey, LivePendingUpdate,
    LivePendingUpdateMode, LiveState, PendingBlockPlan, PendingBody,
};
use super::order::{self, Listed};
use super::table;
use crate::provider::models::{
    content_of, hash_of_receipt, hash_of_transaction, EmittedEventWithFinality, FieldElement,
    TransactionReceiptWithBlockInfo, TransactionWithL2Status, TransactionWithReceipt,
};
use crate::provider::ws::{
    NewEventMessage, NewTransactionMessage, NewTransactionReceiptMessage, StarknetLiveMessage,
};

verus! {

/// Correlates live Starknet transaction and receipt websocket notifications.
#[derive(Debug)]
pub struct StarknetLiveAssembler {
    entries: Vec<(FieldElement, LiveEntry)>,
    event_entries: Vec<(LiveEventKey, LiveEventEntry)>,
    pending_updates: VecDeque<LivePendingUpdate>,
    next_arrival_order: u64,
}

impl View for StarknetLiveAssembler {
    type V = LiveState;

    closed spec fn view(&self) -> LiveState {
        LiveState {
            entries: table::row_map(self.entries@),
            event_entries: table::row_map(self.event_entries@),
            pending_updates: self.pending_updates@,
            next_arrival_order: self.next_arrival_order as int,
        }
    }
}

/// What a message does, by whether its subject had no entry and whether it was news.
pub fn insertion_result(was_new: bool, changed: bool) -> (result: LiveAssemblerInsert)
    ensures
        result == model::insert_result(was_new, changed),
{
    match (was_new, changed) {
        (_, false) => LiveAssemblerInsert::Duplicate,
        (true, true) => LiveAssemblerInsert::Inserted,
        (false, true) => LiveAssemblerInsert::Updated,
    }
}

impl Default for StarknetLiveAssembler {
    fn default() -> (assembler: Self)
        ensures
            assembler.wf(),
            assembler@ == LiveState::empty(),
    {
        let assembler = StarknetLiveAssembler {
            entries: Vec::new(),
            event_entries: Vec::new(),
            pending_updates: VecDeque::new(),
            next_arrival_order: 0,
        };
        assert(assembler@.entries =~= Map::empty());
        assert(assembler@.event_entries =~= Map::empty());
        assembler
    }
}

impl StarknetLiveAssembler {
    /// No transaction and no event has two rows.
    pub closed spec fn rows_are_distinct(&self) -> bool {
        table::distinct_keys(self.entries@) && table::distinct_keys(self.event_entries@)
    }

    pub open spec fn wf(&self) -> bool {
        self.rows_are_distinct() && self@.inv()
    }

    pub fn new() -> (assembler: Self)
        ensures
            assembler.wf(),
            assembler@ == LiveState::empty(),
    {
        Self::default()
    }

    /// How many entries were made so far.
    pub fn next_arrival_order(&self) -> (order: u64)
        ensures
            order == self@.next_arrival_order,
    {
        self.next_arrival_order
    }

    /// The row of a transaction.
    fn entry_row(&self, transaction_hash: &FieldElement) -> (row: Option<usize>)
        requires
            self.rows_are_distinct(),
        ensures
            match row {
                Some(i) => {
                    &&& i < self.entries@.len()
                    &&& self.entries@[i as int].0 == *transaction_hash
                    &&& self@.entries.contains_key(*transaction_hash)
                    &&& self.entries@[i as int].1 == self@.entries[*transaction_hash]
                },
                None => !self@.entries.contains_key(*transaction_hash),
            },
    {
        let mut i: usize = 0;
        while i < self.entries.len()
            invariant
                i <= self.entries@.len(),
                self.rows_are_distinct(),
                forall|j: int| 0 <= j < i ==> (#[trigger] self.entries@[j]).0 != *transaction_hash,
            decreases self.entries@.len() - i,
        {
            if self.entries[i].0 == *transaction_hash {
                proof {
                    table::lemma_row_is_mapped(self.entries@, i as int);
                }
                return Some(i);
            }
            i += 1;
        }
        None
    }

    /// The entry of a transaction, which is made if there is none.
    pub(crate) fn entry_mut(&mut self, transaction_hash: FieldElement) -> (entry: &mut LiveEntry)
        requires
            old(self).rows_are_distinct(),
            old(self)@.has_room_for(transaction_hash),
        ensures
            *entry == old(self)@.entry_or_fresh(transaction_hash),
            final(self).rows_are_distinct(),
            final(self)@ == old(self)@.with_entry(transaction_hash, *final(entry)),
    {
        match self.entry_row(&transaction_hash) {
            Some(i) => {
                let ghost before = *self;
                let entry = &mut self.entries[i].1;
                proof {
                    table::lemma_update(before.entries@, i as int, *final(entry));
                }
                entry
            },
            None => {
                let ghost before = *self;
                let arrival_order = self.next_arrival_order;
                self.next_arrival_order = arrival_order + 1;
                self.entries.push(
                    (
                        transaction_hash,
                        LiveEntry {
                            transaction: None,
                            receipt: None,
                            block_number: None,
                            transaction_index: None,
                            arrival_order,
                        },
                    ),
                );
                let last: usize = self.entries.len() - 1;
                let entry = &mut self.entries[last].1;
                proof {
                    table::lemma_push(before.entries@, transaction_hash, *final(entry));
                    let made = before.entries@.push(
                        (transaction_hash, LiveEntry::fresh(arrival_order)),
                    );
                    assert(made.update(last as int, (transaction_hash, *final(entry)))
                        =~= before.entries@.push((transaction_hash, *final(entry))));
                }
                entry
            },
        }
    }

    /// The row of an event.
    fn event_row(&self, key: &LiveEventKey) -> (row: Option<usize>)
        requires
            self.rows_are_distinct(),
        ensures
            row is Some <==> self@.event_entries.contains_key(*key),
    {
        let mut i: usize = 0;
        while i < self.event_entries.len()
            invariant
                i <= self.event_entries@.len(),
                self.rows_are_distinct(),
                forall|j: int| 0 <= j < i ==> (#[trigger] self.event_entries@[j]).0 != *key,
            decreases self.event_entries@.len() - i,
        {
            let found = &self.event_entries[i].0;
            if found.transaction_hash == key.transaction_hash && found.event_index
                == key.event_index {
                proof {
                    table::lemma_row_is_mapped(self.event_entries@, i as int);
                }
                return Some(i);
            }
            i += 1;
        }
        None
    }

    pub fn push_message(&mut self, message: StarknetLiveMessage) -> (result: LiveAssemblerInsert)
        requires
            old(self).wf(),
            old(self)@.has_room_for_message(message),
        ensures
            final(self).wf(),
            final(self)@ == old(self)@.after_message(message),
            result == old(self)@.message_result(message),
    {
        match message {
            StarknetLiveMessage::Transaction(message) => self.push_transaction(message),
            StarknetLiveMessage::Receipt(message) => self.push_receipt(message),
            StarknetLiveMessage::Event(message) => self.push_event(message),
        }
    }

    /// There is an arrival order left for an entry of the transaction.
    fn has_room_for(&self, transaction_hash: &FieldElement) -> (room: bool)
        requires
            self.rows_are_distinct(),
        ensures
            room == self@.has_room_for(*transaction_hash),
    {
        self.next_arrival_order < u64::MAX || self.entry_row(transaction_hash).is_some()
    }

    /// Pushes a message where there is an arrival order left for what it brings; where there
    /// is none, nothing happens.
    pub fn try_push_message(&mut self, message: StarknetLiveMessage) -> (result: Option<
        LiveAssemblerInsert,
    >)
        requires
            old(self).wf(),
        ensures
            final(self).wf(),
            match result {
                Some(result) => {
                    &&& old(self)@.has_room_for_message(message)
                    &&& final(self)@ == old(self)@.after_message(message)
                    &&& result == old(self)@.message_result(message)
                },
                None => !old(self)@.has_room_for_message(message) && *final(self) == *old(self),
            },
    {
        let room = match &message {
            StarknetLiveMessage::Transaction(message) => self.has_room_for(
                &hash_of_transaction(&message.transaction.txn),
            ),
            StarknetLiveMessage::Receipt(message) => self.has_room_for(
                &hash_of_receipt(&message.receipt.receipt),
            ),
            StarknetLiveMessage::Event(message) => {
                let source = &message.event.emitted_event;
                let key = LiveEventKey {
                    transaction_hash: source.transaction_hash,
                    event_index: source.event_index,
                };
                self.next_arrival_order < u64::MAX || source.block_number.is_none()
                    || self.event_row(&key).is_some()
            },
        };
        if room {
            Some(self.push_message(message))
        } else {
            None
        }
    }

    pub fn push_event(&mut self, message: NewEventMessage) -> (result: LiveAssemblerInsert)
        requires
            old(self).wf(),
            old(self)@.learns_event(message.event) ==> old(self)@.next_arrival_order < u64::MAX,
        ensures
            final(self).wf(),
            final(self)@ == old(self)@.after_event(message.event),
            result == model::insert_result(true, old(self)@.learns_event(message.event)),
    {
        self.push_event_with_meta(message.event)
    }

    /// Takes an event in, unless it says no block or has come before.
    pub fn push_event_with_meta(&mut self, event: EmittedEventWithFinality) -> (result:
        LiveAssemblerInsert)
        requires
            old(self).wf(),
            old(self)@.learns_event(event) ==> old(self)@.next_arrival_order < u64::MAX,
        ensures
            final(self).wf(),
            final(self)@ == old(self)@.after_event(event),
            result == model::insert_result(true, old(self)@.learns_event(event)),
    {
        let source = &event.emitted_event;
        let block_number = match source.block_number {
            Some(block_number) => block_number,
            None => {
                return LiveAssemblerInsert::Duplicate;
            },
        };
        let event_index = source.event_index;
        let transaction_index = source.transaction_index;
        let key = LiveEventKey { transaction_hash: source.transaction_hash, event_index };
        if self.event_row(&key).is_some() {
            return LiveAssemblerInsert::Duplicate;
        }
        let ghost before = *self;
        let arrival_order = self.next_arrival_order;
        self.next_arrival_order = arrival_order + 1;
        self.event_entries.push(
            (
                key,
                LiveEventEntry { event, block_number, transaction_index, event_index, arrival_order },
            ),
        );
        self.pending_updates.push_back(
            LivePendingUpdate { block_number, mode: LivePendingUpdateMode::Events },
        );
        proof {
            table::lemma_push(
                before.event_entries@,
                key,
                LiveEventEntry::of_event(event, block_number, arrival_order),
            );
        }
        LiveAssemblerInsert::Inserted
    }

    pub fn push_transaction(&mut self, message: NewTransactionMessage) -> (result:
        LiveAssemblerInsert)
        requires
            old(self).wf(),
            old(self)@.has_room_for(message.transaction.hash()),
        ensures
            final(self).wf(),
            final(self)@ == old(self)@.after_message(StarknetLiveMessage::Transaction(message)),
            result == old(self)@.message_result(StarknetLiveMessage::Transaction(message)),
    {
        self.push_transaction_with_meta(
            message.transaction,
            message.block_number,
            message.transaction_index,
        )
    }

    /// Takes a transaction in, with what is known of its position.
    pub fn push_transaction_with_meta(
        &mut self,
        transaction: TransactionWithL2Status,
        block_number: Option<u64>,
        transaction_index: Option<u64>,
    ) -> (result: LiveAssemblerInsert)
        requires
            old(self).wf(),
            old(self)@.has_room_for(transaction.hash()),
        ensures
            final(self).wf(),
            final(self)@ == old(self)@.after_transaction(
                transaction,
                block_number,
                transaction_index,
            ),
            result == model::insert_result(
                !old(self)@.entries.contains_key(transaction.hash()),
                old(self)@.learns_transaction(transaction, block_number, transaction_index),
            ),
    {
        let transaction_hash = hash_of_transaction(&transaction.txn);
        let was_new = self.entry_row(&transaction_hash).is_none();
        let entry = self.entry_mut(transaction_hash);
        let mut changed = entry.merge_position(block_number, transaction_index);
        if entry.transaction.is_none() {
            entry.transaction = Some(transaction);
            changed = true;
        }
        insertion_result(was_new, changed)
    }

    pub fn push_receipt(&mut self, message: NewTransactionReceiptMessage) -> (result:
        LiveAssemblerInsert)
        requires
            old(self).wf(),
            old(self)@.has_room_for(message.receipt.hash()),
        ensures
            final(self).wf(),
            final(self)@ == old(self)@.after_message(StarknetLiveMessage::Receipt(message)),
            result == old(self)@.message_result(StarknetLiveMessage::Receipt(message)),
    {
        self.push_receipt_with_meta(message.receipt, message.transaction_index)
    }

    /// Takes a receipt in, with what is known of its position.
    pub fn push_receipt_with_meta(
        &mut self,
        receipt: TransactionReceiptWithBlockInfo,
        transaction_index: Option<u64>,
    ) -> (result: LiveAssemblerInsert)
        requires
            old(self).wf(),
            old(self)@.has_room_for(receipt.hash()),
        ensures
            final(self).wf(),
            final(self)@ == old(self)@.after_receipt(receipt, transaction_index),
            result == model::insert_result(
                !old(self)@.entries.contains_key(receipt.hash()),
                old(self)@.learns_receipt(receipt, transaction_index),
            ),
    {
        let transaction_hash = hash_of_receipt(&receipt.receipt);
        let block_number = receipt.block.block_number();
        let was_new = self.entry_row(&transaction_hash).is_none();
        let entry = self.entry_mut(transaction_hash);
        let mut changed = entry.merge_position(Some(block_number), transaction_index);
        if entry.receipt.is_none() {
            entry.receipt = Some(receipt);
            changed = true;
        }
        if changed {
            self.pending_updates.push_back(
                LivePendingUpdate { block_number, mode: LivePendingUpdateMode::Records },
            );
        }
        insertion_result(was_new, changed)
    }

    /// The blocks that something is known of, in ascending order, each once.
    pub fn pending_block_numbers(&self) -> (numbers: Vec<u64>)
        requires
            self.wf(),
        ensures
            order::ascends(numbers@),
            forall|number: u64| #[trigger]
                numbers@.contains(number) <==> self@.is_pending(number),
    {
        let mut numbers: Vec<u64> = Vec::new();
        let mut i: usize = 0;
        while i < self.entries.len()
            invariant
                i <= self.entries@.len(),
                order::ascends(numbers@),
                forall|number: u64| #[trigger]
                    numbers@.contains(number) <==> (exists|j: int|
                        0 <= j < i && (#[trigger] self.entries@[j]).1.in_block(number)),
            decreases self.entries@.len() - i,
        {
            let ghost before = numbers@;
            if let Some(receipt) = &self.entries[i].1.receipt {
                order::insert_number(&mut numbers, receipt.block.block_number());
            }
            proof {
                assert forall|number: u64| #[trigger]
                    numbers@.contains(number) <==> (exists|j: int|
                        0 <= j < i + 1 && (#[trigger] self.entries@[j]).1.in_block(number)) by {
                    assert(before.contains(number) ==> numbers@.contains(number));
                    if self.entries@[i as int].1.in_block(number) {
                        assert(numbers@.contains(number));
                    }
                }
            }
            i += 1;
        }
        let ghost of_entries = numbers@;
        i = 0;
        while i < self.event_entries.len()
            invariant
                i <= self.event_entries@.len(),
                order::ascends(numbers@),
                forall|number: u64| #[trigger]
                    numbers@.contains(number) <==> of_entries.contains(number) || (exists|j: int|
                        0 <= j < i && (#[trigger] self.event_entries@[j]).1.block_number == number),
            decreases self.event_entries@.len() - i,
        {
            let ghost before = numbers@;
            order::insert_number(&mut numbers, self.event_entries[i].1.block_number);
            proof {
                assert forall|number: u64| #[trigger]
                    numbers@.contains(number) <==> of_entries.contains(number) || (exists|j: int|
                        0 <= j < i + 1 && (#[trigger] self.event_entries@[j]).1.block_number
                            == number) by {
                    assert(before.contains(number) ==> numbers@.contains(number));
                    if self.event_entries@[i as int].1.block_number == number {
                        assert(numbers@.contains(number));
                    }
                }
            }
            i += 1;
        }
        let ghost of_events = numbers@;
        i = 0;
        while i < self.pending_updates.len()
            invariant
                i <= self.pending_updates@.len(),
                order::ascends(numbers@),
                forall|number: u64| #[trigger]
                    numbers@.contains(number) <==> of_events.contains(number) || (exists|j: int|
                        0 <= j < i && (#[trigger] self.pending_updates@[j]).block_number == number),
            decreases self.pending_updates@.len() - i,
        {
            let ghost before = numbers@;
            order::insert_number(&mut numbers, self.pending_updates[i].block_number);
            proof {
                assert forall|number: u64| #[trigger]
                    numbers@.contains(number) <==> of_events.contains(number) || (exists|j: int|
                        0 <= j < i + 1 && (#[trigger] self.pending_updates@[j]).block_number
                            == number) by {
                    assert(before.contains(number) ==> numbers@.contains(number));
                    if self.pending_updates@[i as int].block_number == number {
                        assert(numbers@.contains(number));
                    }
                }
            }
            i += 1;
        }
        proof {
            assert forall|number: u64| #[trigger]
                numbers@.contains(number) <==> self@.is_pending(number) by {
                self.lemma_rows_of_block(number);
                assert(of_entries.contains(number) ==> of_events.contains(number));
            }
        }
        numbers
    }

    /// What the assembler holds is what its rows say: each row, and nothing else; the queue
    /// and the counter as they are.
    proof fn law_rows_are_what_is_held(&self, i: int, hash: FieldElement, key: LiveEventKey)
        requires
            self.rows_are_distinct(),
        ensures
            0 <= i < self.entries@.len() ==> self@.entries.contains_key(self.entries@[i].0)
                && self@.entries[self.entries@[i].0] == self.entries@[i].1,
            self@.entries.contains_key(hash) ==> exists|j: int|
                0 <= j < self.entries@.len() && (#[trigger] self.entries@[j]).0 == hash,
            0 <= i < self.event_entries@.len() ==> self@.event_entries.contains_key(
                self.event_entries@[i].0,
            ) && self@.event_entries[self.event_entries@[i].0] == self.event_entries@[i].1,
            self@.event_entries.contains_key(key) ==> exists|j: int|
                0 <= j < self.event_entries@.len() && (#[trigger] self.event_entries@[j]).0 == key,
            self@.pending_updates == self.pending_updates@,
            self@.next_arrival_order == self.next_arrival_order,
    {
        if 0 <= i < self.entries@.len() {
            table::lemma_row_is_mapped(self.entries@, i);
        }
        if 0 <= i < self.event_entries@.len() {
            table::lemma_row_is_mapped(self.event_entries@, i);
        }
        if self@.entries.contains_key(hash) {
            let j = table::lemma_key_has_row(self.entries@, hash);
            assert(self.entries@[j].0 == hash);
        }
        if self@.event_entries.contains_key(key) {
            let j = table::lemma_key_has_row(self.event_entries@, key);
            assert(self.event_entries@[j].0 == key);
        }
    }

    /// What the rows say of a block is what the maps say.
    proof fn lemma_rows_of_block(&self, number: u64)
        requires
            self.rows_are_distinct(),
        ensures
            self@.has_records(number) <==> exists|j: int|
                0 <= j < self.entries@.len() && (#[trigger] self.entries@[j]).1.in_block(number),
            self@.has_events(number) <==> exists|j: int|
                0 <= j < self.event_entries@.len() && (
                #[trigger] self.event_entries@[j]).1.block_number == number,
    {
        if self@.has_records(number) {
            let hash = choose|hash: FieldElement| #[trigger]
                self@.entries.contains_key(hash) && self@.entries[hash].in_block(number);
            let j = table::lemma_key_has_row(self.entries@, hash);
            assert(self.entries@[j].1.in_block(number));
        }
        if exists|j: int|
            0 <= j < self.entries@.len() && (#[trigger] self.entries@[j]).1.in_block(number) {
            let j = choose|j: int|
                0 <= j < self.entries@.len() && (#[trigger] self.entries@[j]).1.in_block(number);
            table::lemma_row_is_mapped(self.entries@, j);
            assert(self@.entries.contains_key(self.entries@[j].0));
        }
        if self@.has_events(number) {
            let key = choose|key: LiveEventKey| #[trigger]
                self@.event_entries.contains_key(key) && self@.event_entries[key].block_number
                    == number;
            let j = table::lemma_key_has_row(self.event_entries@, key);
            assert(self.event_entries@[j].1.block_number == number);
        }
        if exists|j: int|
            0 <= j < self.event_entries@.len() && (#[trigger] self.event_entries@[j]).1.block_number
                == number {
            let j = choose|j: int|
                0 <= j < self.event_entries@.len() && (
                #[trigger] self.event_entries@[j]).1.block_number == number;
            table::lemma_row_is_mapped(self.event_entries@, j);
            assert(self@.event_entries.contains_key(self.event_entries@[j].0));
        }
    }

    /// Forgets what the acceptance of block `block_number` settles.
    pub fn prune_through_block(&mut self, block_number: u64)
        requires
            old(self).wf(),
        ensures
            final(self).wf(),
            final(self)@ == old(self)@.pruned(block_number),
    {
        self.prune_entries(block_number);
        self.prune_event_entries(block_number);
        self.prune_pending_updates(block_number);
    }

    fn prune_entries(&mut self, block_number: u64)
        requires
            old(self).rows_are_distinct(),
        ensures
            final(self).rows_are_distinct(),
            final(self)@ == (LiveState {
                entries: old(self)@.pruned(block_number).entries,
                ..old(self)@
            }),
    {
        let ghost before = *self;
        let mut i: usize = 0;
        while i < self.entries.len()
            invariant
                i <= self.entries@.len(),
                self.rows_are_distinct(),
                self.event_entries == before.event_entries,
                self.pending_updates == before.pending_updates,
                self.next_arrival_order == before.next_arrival_order,
                forall|j: int|
                    0 <= j < i ==> model::outlives((#[trigger] self.entries@[j]).1, block_number),
                self@.entries.submap_of(before@.entries),
                forall|hash: FieldElement| #[trigger]
                    before@.entries.contains_key(hash) && model::outlives(
                        before@.entries[hash],
                        block_number,
                    ) ==> self@.entries.contains_key(hash),
            decreases self.entries@.len() - i,
        {
            let keep = match &self.entries[i].1.receipt {
                Some(receipt) => receipt.block.block_number() > block_number,
                None => true,
            };
            if keep {
                i += 1;
            } else {
                proof {
                    table::lemma_row_is_mapped(self.entries@, i as int);
                    table::lemma_remove(self.entries@, i as int);
                }
                self.entries.remove(i);
            }
        }
        proof {
            assert forall|hash: FieldElement| self@.entries.contains_key(hash) implies model::outlives(
                before@.entries[hash],
                block_number,
            ) by {
                let j = table::lemma_key_has_row(self.entries@, hash);
                assert(before@.entries.contains_key(hash));
            }
            assert(self@.entries =~= before@.pruned(block_number).entries);
        }
    }

    fn prune_event_entries(&mut self, block_number: u64)
        requires
            old(self).rows_are_distinct(),
        ensures
            final(self).rows_are_distinct(),
            final(self)@ == (LiveState {
                event_entries: old(self)@.pruned(block_number).event_entries,
                ..old(self)@
            }),
    {
        let ghost before = *self;
        let mut i: usize = 0;
        while i < self.event_entries.len()
            invariant
                i <= self.event_entries@.len(),
                self.rows_are_distinct(),
                self.entries == before.entries,
                self.pending_updates == before.pending_updates,
                self.next_arrival_order == before.next_arrival_order,
                forall|j: int|
                    0 <= j < i ==> (#[trigger] self.event_entries@[j]).1.block_number > block_number,
                self@.event_entries.submap_of(before@.event_entries),
                forall|key: LiveEventKey| #[trigger]
                    before@.event_entries.contains_key(key)
                        && before@.event_entries[key].block_number > block_number
                        ==> self@.event_entries.contains_key(key),
            decreases self.event_entries@.len() - i,
        {
            if self.event_entries[i].1.block_number > block_number {
                i += 1;
            } else {
                proof {
                    table::lemma_row_is_mapped(self.event_entries@, i as int);
                    table::lemma_remove(self.event_entries@, i as int);
                }
                self.event_entries.remove(i);
            }
        }
        proof {
            assert forall|key: LiveEventKey| self@.event_entries.contains_key(
                key,
            ) implies before@.event_entries[key].block_number > block_number by {
                let j = table::lemma_key_has_row(self.event_entries@, key);
                assert(before@.event_entries.contains_key(key));
            }
            assert(self@.event_entries =~= before@.pruned(block_number).event_entries);
        }
    }

    fn prune_pending_updates(&mut self, block_number: u64)
        requires
            old(self).rows_are_distinct(),
        ensures
            final(self).rows_are_distinct(),
            final(self)@ == (LiveState {
                pending_updates: old(self)@.pruned(block_number).pending_updates,
                ..old(self)@
            }),
    {
        let ghost before = *self;
        let ghost later = |update: LivePendingUpdate| update.block_number > block_number;
        let mut kept: VecDeque<LivePendingUpdate> = VecDeque::new();
        let mut i: usize = 0;
        proof {
            assert(before.pending_updates@.take(0).filter(later) =~= kept@) by {
                reveal(Seq::filter);
            }
        }
        while i < self.pending_updates.len()
            invariant
                *self == before,
                i <= self.pending_updates@.len(),
                later == (|update: LivePendingUpdate| update.block_number > block_number),
                kept@ == before.pending_updates@.take(i as int).filter(later),
            decreases self.pending_updates@.len() - i,
        {
            let update = self.pending_updates[i];
            proof {
                let updates = before.pending_updates@;
                assert(updates.take(i + 1).drop_last() =~= updates.take(i as int));
                assert(updates.take(i + 1).last() == update);
                reveal(Seq::filter);
            }
            if update.block_number > block_number {
                kept.push_back(update);
            }
            i += 1;
        }
        proof {
            assert(before.pending_updates@.take(i as int) =~= before.pending_updates@);
        }
        self.pending_updates = kept;
    }

    /// The entries of a block, in their order.
    pub fn ordered_entries(&self, block_number: u64) -> (list: Vec<&LiveEntry>)
        requires
            self.wf(),
        ensures
            self@.lists_records(block_number, order::items_of(list@)),
    {
        let mut list: Vec<&LiveEntry> = Vec::new();
        let mut i: usize = 0;
        while i < self.entries.len()
            invariant
                self.wf(),
                i <= self.entries@.len(),
                order::listed_in_order(order::items_of(list@)),
                forall|a: int|
                    0 <= a < list@.len() ==> {
                        let entry = *(#[trigger] list@[a]);
                        let hash = entry.known_receipt().hash();
                        &&& entry.in_block(block_number)
                        &&& self@.entries.contains_key(hash)
                        &&& self@.entries[hash] == entry
                        &&& exists|j: int| 0 <= j < i && #[trigger] self.entries@[j] == (hash, entry)
                    },
                forall|j: int|
                    0 <= j < i && (#[trigger] self.entries@[j]).1.in_block(block_number)
                        ==> list@.contains(&self.entries@[j].1),
            decreases self.entries@.len() - i,
        {
            let entry = &self.entries[i].1;
            let listed = match &entry.receipt {
                Some(receipt) => receipt.block.block_number() == block_number,
                None => false,
            };
            if listed {
                let ghost before = list@;
                proof {
                    let hash = self.entries@[i as int].0;
                    table::lemma_row_is_mapped(self.entries@, i as int);
                    assert(self@.entry_inv(hash));
                    assert forall|a: int| 0 <= a < list@.len() implies (
                    #[trigger] list@[a]).key() != entry.key() by {
                        let other = list@[a].known_receipt().hash();
                        let j = choose|j: int|
                            0 <= j < i && #[trigger] self.entries@[j] == (other, *list@[a]);
                        assert(self.entries@[j].0 != self.entries@[i as int].0);
                        assert(self@.entries.contains_key(other));
                        assert(self@.entries.contains_key(hash));
                    }
                }
                order::insert_in_order(&mut list, entry);
                proof {
                    let at = choose|at: int|
                        0 <= at <= before.len() && list@ == #[trigger] before.insert(at, entry);
                    assert(list@[at] == entry);
                    assert forall|a: int| 0 <= a < list@.len() implies {
                        let entry = *(#[trigger] list@[a]);
                        let hash = entry.known_receipt().hash();
                        &&& entry.in_block(block_number)
                        &&& self@.entries.contains_key(hash)
                        &&& self@.entries[hash] == entry
                        &&& exists|j: int|
                            0 <= j < i + 1 && #[trigger] self.entries@[j] == (hash, entry)
                    } by {
                        if a < at {
                            assert(list@[a] == before[a]);
                        } else if a > at {
                            assert(list@[a] == before[a - 1]);
                        } else {
                            assert(self.entries@[i as int] == (
                                entry.known_receipt().hash(),
                                *entry,
                            ));
                        }
                    }
                    assert forall|j: int|
                        0 <= j < i + 1 && (#[trigger] self.entries@[j]).1.in_block(
                            block_number,
                        ) implies list@.contains(&self.entries@[j].1) by {
                        if j < i {
                            let a = choose|a: int|
                                0 <= a < before.len() && before[a] == &self.entries@[j].1;
                            assert(list@[if a < at { a } else { a + 1 }] == before[a]);
                        }
                    }
                }
            }
            i += 1;
        }
        proof {
            let items = order::items_of(list@);
            assert forall|hash: FieldElement| #[trigger]
                self@.entries.contains_key(hash) && self@.entries[hash].in_block(
                    block_number,
                ) implies items.contains(self@.entries[hash]) by {
                let j = table::lemma_key_has_row(self.entries@, hash);
                let a = choose|a: int| 0 <= a < list@.len() && list@[a] == &self.entries@[j].1;
                assert(items[a] == self@.entries[hash]);
            }
            assert forall|a: int| 0 <= a < items.len() implies {
                let entry = #[trigger] items[a];
                let hash = entry.known_receipt().hash();
                &&& entry.in_block(block_number)
                &&& self@.entries.contains_key(hash)
                &&& self@.entries[hash] == entry
            } by {
                assert(items[a] == *list@[a]);
            }
        }
        list
    }

    /// The events of a block, in their order.
    fn ordered_events(&self, block_number: u64) -> (list: Vec<&LiveEventEntry>)
        requires
            self.wf(),
        ensures
            self@.lists_events(block_number, order::items_of(list@)),
    {
        let mut list: Vec<&LiveEventEntry> = Vec::new();
        let mut i: usize = 0;
        while i < self.event_entries.len()
            invariant
                self.wf(),
                i <= self.event_entries@.len(),
                order::listed_in_order(order::items_of(list@)),
                forall|a: int|
                    0 <= a < list@.len() ==> {
                        let entry = *(#[trigger] list@[a]);
                        let key = LiveEventKey::of_event(entry.event);
                        &&& entry.block_number == block_number
                        &&& self@.event_entries.contains_key(key)
                        &&& self@.event_entries[key] == entry
                        &&& exists|j: int|
                            0 <= j < i && #[trigger] self.event_entries@[j] == (key, entry)
                    },
                forall|j: int|
                    0 <= j < i && (#[trigger] self.event_entries@[j]).1.block_number == block_number
                        ==> list@.contains(&self.event_entries@[j].1),
            decreases self.event_entries@.len() - i,
        {
            let entry = &self.event_entries[i].1;
            if entry.block_number == block_number {
                let ghost before = list@;
                proof {
                    let key = self.event_entries@[i as int].0;
                    table::lemma_row_is_mapped(self.event_entries@, i as int);
                    assert(self@.event_inv(key));
                    assert forall|a: int| 0 <= a < list@.len() implies (
                    #[trigger] list@[a]).key() != entry.key() by {
                        let other = LiveEventKey::of_event(list@[a].event);
                        let j = choose|j: int|
                            0 <= j < i && #[trigger] self.event_entries@[j] == (other, *list@[a]);
                        assert(self.event_entries@[j].0 != self.event_entries@[i as int].0);
                        assert(self@.event_entries.contains_key(other));
                        assert(self@.event_entries.contains_key(key));
                    }
                }
                order::insert_in_order(&mut list, entry);
                proof {
                    let at = choose|at: int|
                        0 <= at <= before.len() && list@ == #[trigger] before.insert(at, entry);
                    assert(list@[at] == entry);
                    assert forall|a: int| 0 <= a < list@.len() implies {
                        let entry = *(#[trigger] list@[a]);
                        let key = LiveEventKey::of_event(entry.event);
                        &&& entry.block_number == block_number
                        &&& self@.event_entries.contains_key(key)
                        &&& self@.event_entries[key] == entry
                        &&& exists|j: int|
                            0 <= j < i + 1 && #[trigger] self.event_entries@[j] == (key, entry)
                    } by {
                        if a < at {
                            assert(list@[a] == before[a]);
                        } else if a > at {
                            assert(list@[a] == before[a - 1]);
                        } else {
                            assert(self.event_entries@[i as int] == (
                                LiveEventKey::of_event(entry.event),
                                *entry,
                            ));
                        }
                    }
                    assert forall|j: int|
                        0 <= j < i + 1 && (#[trigger] self.event_entries@[j]).1.block_number
                            == block_number implies list@.contains(
                        &self.event_entries@[j].1,
                    ) by {
                        if j < i {
                            let a = choose|a: int|
                                0 <= a < before.len() && before[a] == &self.event_entries@[j].1;
                            assert(list@[if a < at { a } else { a + 1 }] == before[a]);
                        }
                    }
                }
            }
            i += 1;
        }
        proof {
            let items = order::items_of(list@);
            assert forall|key: LiveEventKey| #[trigger]
                self@.event_entries.contains_key(key) && self@.event_entries[key].block_number
                    == block_number implies items.contains(self@.event_entries[key]) by {
                let j = table::lemma_key_has_row(self.event_entries@, key);
                let a = choose|a: int|
                    0 <= a < list@.len() && list@[a] == &self.event_entries@[j].1;
                assert(items[a] == self@.event_entries[key]);
            }
            assert forall|a: int| 0 <= a < items.len() implies {
                let entry = #[trigger] items[a];
                let key = LiveEventKey::of_event(entry.event);
                &&& entry.block_number == block_number
                &&& self@.event_entries.contains_key(key)
                &&& self@.event_entries[key] == entry
            } by {
                assert(items[a] == *list@[a]);
            }
        }
        list
    }

    /// What there is to write of the records of a block: nothing as long as it has no
    /// receipt, and receipts alone as long as a transaction is missing.
    pub fn build_pending_block(&self, block_number: u64) -> (plan: Option<PendingBlockPlan>)
        requires
            self.wf(),
        ensures
            self@.plans_records(block_number, plan),
    {
        let entries = self.ordered_entries(block_number);
        let ghost list = order::items_of(entries@);
        if entries.len() == 0 {
            proof {
                if self@.has_records(block_number) {
                    let hash = choose|hash: FieldElement| #[trigger]
                        self@.entries.contains_key(hash) && self@.entries[hash].in_block(
                            block_number,
                        );
                    assert(list.contains(self@.entries[hash]));
                }
            }
            return None;
        }
        proof {
            assert(list[0].in_block(block_number));
            assert(self@.entries.contains_key(list[0].known_receipt().hash()));
        }
        let mut transaction_hashes: Vec<FieldElement> = Vec::new();
        let mut all_known = true;
        let mut i: usize = 0;
        while i < entries.len()
            invariant
                i <= entries@.len(),
                list == order::items_of(entries@),
                self@.lists_records(block_number, list),
                transaction_hashes@.len() == i,
                forall|j: int|
                    0 <= j < i ==> transaction_hashes@[j] == (
                    #[trigger] list[j]).known_receipt().hash(),
                all_known <==> forall|j: int|
                    0 <= j < i ==> (#[trigger] list[j]).transaction is Some,
            decreases entries@.len() - i,
        {
            let entry = entries[i];
            assert(list[i as int] == *entry);
            if let Some(receipt) = &entry.receipt {
                transaction_hashes.push(hash_of_receipt(&receipt.receipt));
            }
            if entry.transaction.is_none() {
                all_known = false;
            }
            i += 1;
        }
        let body = if all_known {
            PendingBody::Transactions(Self::collect_transactions(&entries))
        } else {
            PendingBody::Receipts(Self::collect_receipts(&entries))
        };
        let plan = PendingBlockPlan { block_number, transaction_hashes, body };
        proof {
            assert(plan.transaction_hashes@ =~= list.map_values(
                |entry: LiveEntry| entry.known_receipt().hash(),
            ));
            assert(model::is_record_plan(block_number, list, plan));
        }
        Some(plan)
    }

    /// The transactions and receipts of entries that know both.
    fn collect_transactions(entries: &Vec<&LiveEntry>) -> (transactions: Vec<
        TransactionWithReceipt,
    >)
        requires
            forall|i: int|
                0 <= i < entries@.len() ==> (#[trigger] order::items_of(entries@)[i]).receipt
                    is Some,
            model::all_transactions_known(order::items_of(entries@)),
        ensures
            transactions@ == order::items_of(entries@).map_values(
                |entry: LiveEntry| model::transaction_with_receipt(entry),
            ),
    {
        let ghost list = order::items_of(entries@);
        let mut transactions: Vec<TransactionWithReceipt> = Vec::new();
        let mut i: usize = 0;
        while i < entries.len()
            invariant
                i <= entries@.len(),
                list == order::items_of(entries@),
                forall|j: int| 0 <= j < entries@.len() ==> (#[trigger] list[j]).receipt is Some,
                model::all_transactions_known(list),
                transactions@.len() == i,
                forall|j: int|
                    0 <= j < i ==> transactions@[j] == model::transaction_with_receipt(
                        #[trigger] list[j],
                    ),
            decreases entries@.len() - i,
        {
            let entry = entries[i];
            assert(list[i as int] == *entry);
            if let (Some(transaction), Some(receipt)) = (&entry.transaction, &entry.receipt) {
                transactions.push(
                    TransactionWithReceipt {
                        transaction: content_of(transaction.txn.clone()),
                        receipt: receipt.receipt.clone(),
                    },
                );
            }
            i += 1;
        }
        assert(transactions@ =~= list.map_values(
            |entry: LiveEntry| model::transaction_with_receipt(entry),
        ));
        transactions
    }

    /// The receipts of entries that have one.
    fn collect_receipts(entries: &Vec<&LiveEntry>) -> (receipts: Vec<
        starknet_rust::core::types::TransactionReceipt,
    >)
        requires
            forall|i: int|
                0 <= i < entries@.len() ==> (#[trigger] order::items_of(entries@)[i]).receipt
                    is Some,
        ensures
            receipts@ == order::items_of(entries@).map_values(
                |entry: LiveEntry| entry.known_receipt().receipt,
            ),
    {
        let ghost list = order::items_of(entries@);
        let mut receipts: Vec<starknet_rust::core::types::TransactionReceipt> = Vec::new();
        let mut i: usize = 0;
        while i < entries.len()
            invariant
                i <= entries@.len(),
                list == order::items_of(entries@),
                forall|j: int| 0 <= j < entries@.len() ==> (#[trigger] list[j]).receipt is Some,
                receipts@.len() == i,
                forall|j: int|
                    0 <= j < i ==> receipts@[j] == (#[trigger] list[j]).known_receipt().receipt,
            decreases entries@.len() - i,
        {
            let entry = entries[i];
            assert(list[i as int] == *entry);
            if let Some(receipt) = &entry.receipt {
                receipts.push(receipt.receipt.clone());
            }
            i += 1;
        }
        assert(receipts@ =~= list.map_values(|entry: LiveEntry| entry.known_receipt().receipt));
        receipts
    }

    /// What there is to write of the events of a block: nothing as long as it has none.
    pub fn build_event_pending_block(&self, block_number: u64) -> (plan: Option<PendingBlockPlan>)
        requires
            self.wf(),
        ensures
            self@.plans_events(block_number, plan),
    {
        let entries = self.ordered_events(block_number);
        let ghost list = order::items_of(entries@);
        if entries.len() == 0 {
            proof {
                if self@.has_events(block_number) {
                    let key = choose|key: LiveEventKey| #[trigger]
                        self@.event_entries.contains_key(key)
                            && self@.event_entries[key].block_number == block_number;
                    assert(list.contains(self@.event_entries[key]));
                }
            }
            return None;
        }
        proof {
            assert(list[0].block_number == block_number);
            assert(self@.event_entries.contains_key(LiveEventKey::of_event(list[0].event)));
        }
        let mut transaction_hashes: Vec<FieldElement> = Vec::new();
        let mut events: Vec<EmittedEventWithFinality> = Vec::new();
        let mut i: usize = 0;
        while i < entries.len()
            invariant
                i <= entries@.len(),
                list == order::items_of(entries@),
                transaction_hashes@.len() == i,
                forall|j: int|
                    0 <= j < i ==> transaction_hashes@[j] == (
                    #[trigger] list[j]).event.emitted_event.transaction_hash,
                events@.len() == i,
                forall|j: int| 0 <= j < i ==> events@[j]@ == (#[trigger] list[j]).event@,
            decreases entries@.len() - i,
        {
            let entry = entries[i];
            assert(list[i as int] == *entry);
            transaction_hashes.push(entry.event.emitted_event.transaction_hash);
            events.push(entry.event.clone());
            i += 1;
        }
        let plan = PendingBlockPlan {
            block_number,
            transaction_hashes,
            body: PendingBody::Events(events),
        };
        proof {
            assert(plan.transaction_hashes@ =~= list.map_values(
                |entry: LiveEventEntry| entry.event.emitted_event.transaction_hash,
            ));
            assert(events@.map_values(|event: EmittedEventWithFinality| event@)
                =~= list.map_values(|entry: LiveEventEntry| entry.event@));
            assert(model::is_event_plan(block_number, list, plan));
        }
        Some(plan)
    }

    /// What there is to write next, of a block after `after_block_number`: what the oldest
    /// update with content is about; without such an update, the records of the first
    /// pending block.
    pub fn build_next_pending_block(&mut self, after_block_number: u64) -> (plan: Option<
        PendingBlockPlan,
    >)
        requires
            old(self).wf(),
        ensures
            final(self).wf(),
            old(self)@.plans_next(after_block_number, final(self)@, plan),
    {
        let ghost before = self@;
        let ghost mut used: int = 0;
        assert(before.without_updates(0).pending_updates =~= before.pending_updates);
        while self.pending_updates.len() > 0
            invariant
                self.wf(),
                before == old(self)@,
                0 <= used <= before.pending_updates.len(),
                self@ == before.without_updates(used),
                before.next_update(after_block_number, 0) == before.next_update(
                    after_block_number,
                    used,
                ),
            decreases before.pending_updates.len() - used,
        {
            if let Some(update) = self.pending_updates.pop_front() {
                proof {
                    assert(self@.pending_updates =~= before.pending_updates.skip(used + 1));
                    assert(update == before.pending_updates[used]);
                    used = used + 1;
                    assert(self@ == before.without_updates(used));
                }
                if update.block_number > after_block_number {
                    let plan = match update.mode {
                        LivePendingUpdateMode::Events => self.build_event_pending_block(
                            update.block_number,
                        ),
                        LivePendingUpdateMode::Records => self.build_pending_block(
                            update.block_number,
                        ),
                    };
                    proof {
                        self@.lemma_updates_aside(before, update, plan);
                    }
                    if plan.is_some() {
                        return plan;
                    }
                }
            }
        }
        let numbers = self.pending_block_numbers();
        let mut i: usize = 0;
        while i < numbers.len()
            invariant
                self.wf(),
                i <= numbers@.len(),
                order::ascends(numbers@),
                forall|number: u64| #[trigger]
                    numbers@.contains(number) <==> self@.is_pending(number),
                forall|j: int| 0 <= j < i ==> numbers@[j] <= after_block_number,
                before == old(self)@,
                self@ == before.without_updates(before.pending_updates.len() as int),
                before.next_update(after_block_number, 0) == before.pending_updates.len(),
            decreases numbers@.len() - i,
        {
            let number = numbers[i];
            if number > after_block_number {
                let plan = self.build_pending_block(number);
                proof {
                    assert(numbers@.contains(number));
                    assert forall|other: u64| other > after_block_number && #[trigger]
                        self@.is_pending(other) implies number <= other by {
                        assert(numbers@.contains(other));
                        let j = choose|j: int| 0 <= j < numbers@.len() && numbers@[j] == other;
                    }
                    assert(self@.is_first_pending(after_block_number, number));
                }
                return plan;
            }
            i += 1;
        }
        proof {
            assert forall|other: u64| other > after_block_number implies !#[trigger]
                self@.is_pending(other) by {
                if self@.is_pending(other) {
                    assert(numbers@.contains(other));
                }
            }
        }
        None
    }
}

} // verus!
