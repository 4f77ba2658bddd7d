//! What the assembler holds, and what each operation makes of it.

use vstd::prelude::*;

use super::order::{listed_in_order, Listed, OrderKey};
use crate::provider::models::{
    self, EmittedEventWithFinality, FieldElement, TransactionReceiptWithBlockInfo,
    TransactionWithL2Status, TransactionWithReceipt,
};
use crate::provider::ws::StarknetLiveMessage;

verus! {

/// Result of inserting a live transaction, receipt or event into the assembler.
#[derive(Debug, Clone, Copy, PartialEq, Eq, Structural)]
pub enum LiveAssemblerInsert {
    Inserted,
    Updated,
    Duplicate,
}

/// Which part of a block an update is about.
#[derive(Debug, Clone, Copy, PartialEq, Eq, Structural)]
pub enum LivePendingUpdateMode {
    Events,
    Records,
}

/// A block of which something new is known.
#[derive(Debug, Clone, Copy, PartialEq, Eq, Structural)]
pub struct LivePendingUpdate {
    pub block_number: u64,
    pub mode: LivePendingUpdateMode,
}

/// What is known of one transaction.
#[derive(Debug)]
pub struct LiveEntry {
    pub transaction: Option<TransactionWithL2Status>,
    pub receipt: Option<TransactionReceiptWithBlockInfo>,
    pub block_number: Option<u64>,
    pub transaction_index: Option<u64>,
    pub arrival_order: u64,
}

/// What identifies an event.
#[derive(Debug, Clone, Copy)]
pub struct LiveEventKey {
    pub transaction_hash: FieldElement,
    pub event_index: u64,
}

/// What is known of one event.
#[derive(Debug)]
pub struct LiveEventEntry {
    pub event: EmittedEventWithFinality,
    pub block_number: u64,
    pub transaction_index: u64,
    pub event_index: u64,
    pub arrival_order: u64,
}

/// The content of a pending block.
#[derive(Debug)]
pub enum PendingBody {
    /// Every transaction is there.
    Transactions(Vec<TransactionWithReceipt>),
    /// Some transaction is not there yet: receipts alone.
    Receipts(Vec<starknet_rust::core::types::TransactionReceipt>),
    /// Events alone.
    Events(Vec<EmittedEventWithFinality>),
}

/// A pending block to be written, before its content is turned into fragments.
#[derive(Debug)]
pub struct PendingBlockPlan {
    pub block_number: u64,
    pub transaction_hashes: Vec<FieldElement>,
    pub body: PendingBody,
}

/// What a message does, by whether its subject had no entry and whether it was news.
pub open spec fn insert_result(was_new: bool, changed: bool) -> LiveAssemblerInsert {
    if !changed {
        LiveAssemblerInsert::Duplicate
    } else if was_new {
        LiveAssemblerInsert::Inserted
    } else {
        LiveAssemblerInsert::Updated
    }
}

impl LiveEntry {
    /// The entry of a transaction of which nothing is known but that it came.
    pub open spec fn fresh(arrival_order: u64) -> LiveEntry {
        LiveEntry {
            transaction: None,
            receipt: None,
            block_number: None,
            transaction_index: None,
            arrival_order,
        }
    }

    /// The position says something that the entry does not know yet.
    pub open spec fn learns_position(
        self,
        block_number: Option<u64>,
        transaction_index: Option<u64>,
    ) -> bool {
        ||| self.block_number is None && block_number is Some
        ||| self.transaction_index is None && transaction_index is Some
    }

    /// The entry with the position filled in where it was not known: what came first stays.
    pub open spec fn with_position(
        self,
        block_number: Option<u64>,
        transaction_index: Option<u64>,
    ) -> LiveEntry {
        LiveEntry {
            block_number: if self.block_number is None {
                block_number
            } else {
                self.block_number
            },
            transaction_index: if self.transaction_index is None {
                transaction_index
            } else {
                self.transaction_index
            },
            ..self
        }
    }

    /// The entry with the transaction, unless it has one.
    pub open spec fn with_transaction(self, transaction: TransactionWithL2Status) -> LiveEntry {
        LiveEntry {
            transaction: if self.transaction is None {
                Some(transaction)
            } else {
                self.transaction
            },
            ..self
        }
    }

    /// The entry with the receipt, unless it has one.
    pub open spec fn with_receipt(self, receipt: TransactionReceiptWithBlockInfo) -> LiveEntry {
        LiveEntry {
            receipt: if self.receipt is None {
                Some(receipt)
            } else {
                self.receipt
            },
            ..self
        }
    }

    /// The entry's receipt is attached to block `block_number`.
    pub open spec fn in_block(self, block_number: u64) -> bool {
        self.receipt matches Some(receipt) && receipt.block.number() == block_number
    }

    /// The receipt of an entry that has one.
    pub open spec fn known_receipt(self) -> TransactionReceiptWithBlockInfo {
        self.receipt->0
    }
}

impl LiveEventEntry {
    /// The entry of an event that is known to be in block `block_number`.
    pub open spec fn of_event(
        event: EmittedEventWithFinality,
        block_number: u64,
        arrival_order: u64,
    ) -> LiveEventEntry {
        LiveEventEntry {
            event,
            block_number,
            transaction_index: event.emitted_event.transaction_index,
            event_index: event.emitted_event.event_index,
            arrival_order,
        }
    }
}

impl LiveEventKey {
    pub open spec fn of_event(event: EmittedEventWithFinality) -> LiveEventKey {
        LiveEventKey {
            transaction_hash: event.emitted_event.transaction_hash,
            event_index: event.emitted_event.event_index,
        }
    }
}

/// The contents of a [`StarknetLiveAssembler`](super::StarknetLiveAssembler).
pub struct LiveState {
    /// The transactions, by their hashes.
    pub entries: Map<FieldElement, LiveEntry>,
    /// The events.
    pub event_entries: Map<LiveEventKey, LiveEventEntry>,
    /// The updates that no pending block was planned for yet, oldest first.
    pub pending_updates: Seq<LivePendingUpdate>,
    /// How many entries were made so far.
    pub next_arrival_order: int,
}

impl LiveState {
    /// Nothing came yet.
    pub open spec fn empty() -> LiveState {
        LiveState {
            entries: Map::empty(),
            event_entries: Map::empty(),
            pending_updates: Seq::empty(),
            next_arrival_order: 0,
        }
    }

    /// What holds of an assembler at all times.
    pub open spec fn inv(self) -> bool {
        &&& 0 <= self.next_arrival_order <= u64::MAX
        &&& forall|hash: FieldElement| #[trigger]
            self.entries.contains_key(hash) ==> self.entry_inv(hash)
        &&& forall|key: LiveEventKey| #[trigger]
            self.event_entries.contains_key(key) ==> self.event_inv(key)
        &&& forall|a: FieldElement, b: FieldElement| #[trigger]
            self.entries.contains_key(a) && #[trigger] self.entries.contains_key(b) && a != b
                ==> self.entries[a].arrival_order != self.entries[b].arrival_order
        &&& forall|a: LiveEventKey, b: LiveEventKey| #[trigger]
            self.event_entries.contains_key(a) && #[trigger] self.event_entries.contains_key(b) && a
                != b ==> self.event_entries[a].arrival_order != self.event_entries[b].arrival_order
        &&& forall|a: FieldElement, b: LiveEventKey| #[trigger]
            self.entries.contains_key(a) && #[trigger] self.event_entries.contains_key(b)
                ==> self.entries[a].arrival_order != self.event_entries[b].arrival_order
    }

    /// An entry is about the transaction that it is found by, knows one of its two halves
    /// at least, and has come before what is still to come.
    pub open spec fn entry_inv(self, hash: FieldElement) -> bool {
        let entry = self.entries[hash];
        &&& entry.arrival_order < self.next_arrival_order
        &&& entry.transaction is Some || entry.receipt is Some
        &&& entry.transaction matches Some(transaction) ==> transaction.hash() == hash
        &&& entry.receipt matches Some(receipt) ==> {
            &&& receipt.hash() == hash
            &&& entry.block_number is Some
        }
    }

    /// An event's entry says what the event says, and has come before what is still to come.
    pub open spec fn event_inv(self, key: LiveEventKey) -> bool {
        let entry = self.event_entries[key];
        &&& entry.arrival_order < self.next_arrival_order
        &&& key == LiveEventKey::of_event(entry.event)
        &&& entry.event.emitted_event.block_number == Some(entry.block_number)
        &&& entry == LiveEventEntry::of_event(entry.event, entry.block_number, entry.arrival_order)
    }

    /// The entry of a transaction; a fresh one if there is none.
    pub open spec fn entry_or_fresh(self, hash: FieldElement) -> LiveEntry {
        if self.entries.contains_key(hash) {
            self.entries[hash]
        } else {
            LiveEntry::fresh(self.next_arrival_order as u64)
        }
    }

    /// The assembler with `entry` for a transaction.
    pub open spec fn with_entry(self, hash: FieldElement, entry: LiveEntry) -> LiveState {
        LiveState {
            entries: self.entries.insert(hash, entry),
            next_arrival_order: if self.entries.contains_key(hash) {
                self.next_arrival_order
            } else {
                self.next_arrival_order + 1
            },
            ..self
        }
    }

    /// The assembler with one more update to plan a pending block for.
    pub open spec fn with_update(self, block_number: u64, mode: LivePendingUpdateMode) -> LiveState {
        LiveState {
            pending_updates: self.pending_updates.push(LivePendingUpdate { block_number, mode }),
            ..self
        }
    }

    /// There is an arrival order left for an entry of the transaction.
    pub open spec fn has_room_for(self, hash: FieldElement) -> bool {
        self.entries.contains_key(hash) || self.next_arrival_order < u64::MAX
    }

    /// The transaction, or its position, is news.
    pub open spec fn learns_transaction(
        self,
        transaction: TransactionWithL2Status,
        block_number: Option<u64>,
        transaction_index: Option<u64>,
    ) -> bool {
        let entry = self.entry_or_fresh(transaction.hash());
        entry.learns_position(block_number, transaction_index) || entry.transaction is None
    }

    /// What a transaction makes of the assembler.
    pub open spec fn after_transaction(
        self,
        transaction: TransactionWithL2Status,
        block_number: Option<u64>,
        transaction_index: Option<u64>,
    ) -> LiveState {
        let hash = transaction.hash();
        self.with_entry(
            hash,
            self.entry_or_fresh(hash).with_position(
                block_number,
                transaction_index,
            ).with_transaction(transaction),
        )
    }

    /// The receipt, or its position, is news.
    pub open spec fn learns_receipt(
        self,
        receipt: TransactionReceiptWithBlockInfo,
        transaction_index: Option<u64>,
    ) -> bool {
        let entry = self.entry_or_fresh(receipt.hash());
        entry.learns_position(Some(receipt.block.number()), transaction_index) || entry.receipt
            is None
    }

    /// What a receipt makes of the assembler: where it is news, its block is due for an
    /// update.
    pub open spec fn after_receipt(
        self,
        receipt: TransactionReceiptWithBlockInfo,
        transaction_index: Option<u64>,
    ) -> LiveState {
        let hash = receipt.hash();
        let known = self.with_entry(
            hash,
            self.entry_or_fresh(hash).with_position(
                Some(receipt.block.number()),
                transaction_index,
            ).with_receipt(receipt),
        );
        if self.learns_receipt(receipt, transaction_index) {
            known.with_update(receipt.block.number(), LivePendingUpdateMode::Records)
        } else {
            known
        }
    }

    /// The event is news: it says which block it is in, and has not come before.
    pub open spec fn learns_event(self, event: EmittedEventWithFinality) -> bool {
        &&& event.emitted_event.block_number is Some
        &&& !self.event_entries.contains_key(LiveEventKey::of_event(event))
    }

    /// What an event makes of the assembler: where it is news, its block is due for an update.
    pub open spec fn after_event(self, event: EmittedEventWithFinality) -> LiveState {
        if self.learns_event(event) {
            let block_number = event.emitted_event.block_number->0;
            LiveState {
                event_entries: self.event_entries.insert(
                    LiveEventKey::of_event(event),
                    LiveEventEntry::of_event(
                        event,
                        block_number,
                        self.next_arrival_order as u64,
                    ),
                ),
                next_arrival_order: self.next_arrival_order + 1,
                ..self
            }.with_update(block_number, LivePendingUpdateMode::Events)
        } else {
            self
        }
    }

    /// There is an arrival order left for what the message brings.
    pub open spec fn has_room_for_message(self, message: StarknetLiveMessage) -> bool {
        match message {
            StarknetLiveMessage::Transaction(message) => self.has_room_for(
                message.transaction.hash(),
            ),
            StarknetLiveMessage::Receipt(message) => self.has_room_for(
                message.receipt.hash(),
            ),
            StarknetLiveMessage::Event(message) => self.learns_event(message.event)
                ==> self.next_arrival_order < u64::MAX,
        }
    }

    /// What a message makes of the assembler.
    pub open spec fn after_message(self, message: StarknetLiveMessage) -> LiveState {
        match message {
            StarknetLiveMessage::Transaction(message) => self.after_transaction(
                message.transaction,
                message.block_number,
                message.transaction_index,
            ),
            StarknetLiveMessage::Receipt(message) => self.after_receipt(
                message.receipt,
                message.transaction_index,
            ),
            StarknetLiveMessage::Event(message) => self.after_event(message.event),
        }
    }

    /// What a message is answered.
    pub open spec fn message_result(self, message: StarknetLiveMessage) -> LiveAssemblerInsert {
        match message {
            StarknetLiveMessage::Transaction(message) => insert_result(
                !self.entries.contains_key(message.transaction.hash()),
                self.learns_transaction(
                    message.transaction,
                    message.block_number,
                    message.transaction_index,
                ),
            ),
            StarknetLiveMessage::Receipt(message) => insert_result(
                !self.entries.contains_key(message.receipt.hash()),
                self.learns_receipt(message.receipt, message.transaction_index),
            ),
            StarknetLiveMessage::Event(message) => insert_result(
                true,
                self.learns_event(message.event),
            ),
        }
    }

    /// Block `block_number` has a receipt.
    pub open spec fn has_records(self, block_number: u64) -> bool {
        exists|hash: FieldElement| #[trigger]
            self.entries.contains_key(hash) && self.entries[hash].in_block(block_number)
    }

    /// Block `block_number` has an event.
    pub open spec fn has_events(self, block_number: u64) -> bool {
        exists|key: LiveEventKey| #[trigger]
            self.event_entries.contains_key(key) && self.event_entries[key].block_number
                == block_number
    }

    /// Block `block_number` is due for an update.
    pub open spec fn is_due(self, block_number: u64) -> bool {
        exists|i: int|
            0 <= i < self.pending_updates.len() && (#[trigger] self.pending_updates[i]).block_number
                == block_number
    }

    /// Something is known of block `block_number`.
    pub open spec fn is_pending(self, block_number: u64) -> bool {
        self.has_records(block_number) || self.has_events(block_number) || self.is_due(block_number)
    }

    /// What is left once everything up to block `block_number` was accepted: transactions
    /// without a receipt, and what belongs to later blocks.
    pub open spec fn pruned(self, block_number: u64) -> LiveState {
        LiveState {
            entries: self.entries.restrict(
                Set::new(|hash: FieldElement| outlives(self.entries[hash], block_number)),
            ),
            event_entries: self.event_entries.restrict(
                Set::new(
                    |key: LiveEventKey| self.event_entries[key].block_number > block_number,
                ),
            ),
            pending_updates: later_updates(self.pending_updates, block_number),
            ..self
        }
    }
}

/// The updates of the blocks after block `block_number`.
pub open spec fn later_updates(
    updates: Seq<LivePendingUpdate>,
    block_number: u64,
) -> Seq<LivePendingUpdate> {
    updates.filter(|update: LivePendingUpdate| update.block_number > block_number)
}

impl Listed for LiveEntry {
    /// Entries whose position is known come first, by their position; the others follow.
    /// What came first stands first where nothing else decides.
    open spec fn key(&self) -> OrderKey {
        match (self.block_number, self.transaction_index) {
            (Some(block_number), Some(transaction_index)) => (
                0,
                block_number,
                transaction_index,
                self.arrival_order,
            ),
            _ => (1, 0, 0, self.arrival_order),
        }
    }

    fn order_key(&self) -> (key: OrderKey) {
        match self.position() {
            Some((block_number, transaction_index)) => (
                0,
                block_number,
                transaction_index,
                self.arrival_order,
            ),
            None => (1, 0, 0, self.arrival_order),
        }
    }
}

impl Listed for LiveEventEntry {
    /// Events stand in the order of their transactions, and in that of a transaction.
    open spec fn key(&self) -> OrderKey {
        (0, self.transaction_index, self.event_index, self.arrival_order)
    }

    fn order_key(&self) -> (key: OrderKey) {
        (0, self.transaction_index, self.event_index, self.arrival_order)
    }
}

impl LiveEntry {
    /// Fills in the position where it is not known, and says whether that was news.
    pub fn merge_position(
        &mut self,
        block_number: Option<u64>,
        transaction_index: Option<u64>,
    ) -> (changed: bool)
        ensures
            *final(self) == old(self).with_position(block_number, transaction_index),
            changed == old(self).learns_position(block_number, transaction_index),
    {
        let mut changed = false;
        if self.block_number.is_none() && block_number.is_some() {
            self.block_number = block_number;
            changed = true;
        }
        if self.transaction_index.is_none() && transaction_index.is_some() {
            self.transaction_index = transaction_index;
            changed = true;
        }
        changed
    }

    /// The block and the index in it, where both are known.
    pub fn position(&self) -> (position: Option<(u64, u64)>)
        ensures
            position == (match (self.block_number, self.transaction_index) {
                (Some(block_number), Some(transaction_index)) => Some(
                    (block_number, transaction_index),
                ),
                _ => None,
            }),
    {
        match (self.block_number, self.transaction_index) {
            (Some(block_number), Some(transaction_index)) => Some(
                (block_number, transaction_index),
            ),
            _ => None,
        }
    }
}

impl LiveState {
    /// `list` holds the entries of block `block_number`, each once, in their order.
    pub open spec fn lists_records(self, block_number: u64, list: Seq<LiveEntry>) -> bool {
        &&& listed_in_order(list)
        &&& forall|i: int|
            0 <= i < list.len() ==> {
                let entry = #[trigger] list[i];
                let hash = entry.known_receipt().hash();
                &&& entry.in_block(block_number)
                &&& self.entries.contains_key(hash)
                &&& self.entries[hash] == entry
            }
        &&& forall|hash: FieldElement| #[trigger]
            self.entries.contains_key(hash) && self.entries[hash].in_block(block_number)
                ==> list.contains(self.entries[hash])
    }

    /// `list` holds the events of block `block_number`, each once, in their order.
    pub open spec fn lists_events(self, block_number: u64, list: Seq<LiveEventEntry>) -> bool {
        &&& listed_in_order(list)
        &&& forall|i: int|
            0 <= i < list.len() ==> {
                let entry = #[trigger] list[i];
                let key = LiveEventKey::of_event(entry.event);
                &&& entry.block_number == block_number
                &&& self.event_entries.contains_key(key)
                &&& self.event_entries[key] == entry
            }
        &&& forall|key: LiveEventKey| #[trigger]
            self.event_entries.contains_key(key) && self.event_entries[key].block_number
                == block_number ==> list.contains(self.event_entries[key])
    }

    /// `plan` is what there is to write of the records of block `block_number`: nothing
    /// without a receipt.
    pub open spec fn plans_records(
        self,
        block_number: u64,
        plan: Option<PendingBlockPlan>,
    ) -> bool {
        match plan {
            None => !self.has_records(block_number),
            Some(plan) => {
                &&& self.has_records(block_number)
                &&& exists|list: Seq<LiveEntry>| #[trigger]
                    self.lists_records(block_number, list) && is_record_plan(
                        block_number,
                        list,
                        plan,
                    )
            },
        }
    }

    /// `plan` is what there is to write of the events of block `block_number`: nothing
    /// without an event.
    pub open spec fn plans_events(self, block_number: u64, plan: Option<PendingBlockPlan>) -> bool {
        match plan {
            None => !self.has_events(block_number),
            Some(plan) => {
                &&& self.has_events(block_number)
                &&& exists|list: Seq<LiveEventEntry>| #[trigger]
                    self.lists_events(block_number, list) && is_event_plan(block_number, list, plan)
            },
        }
    }

    /// There is something to write for the update.
    pub open spec fn has_content(self, update: LivePendingUpdate) -> bool {
        match update.mode {
            LivePendingUpdateMode::Events => self.has_events(update.block_number),
            LivePendingUpdateMode::Records => self.has_records(update.block_number),
        }
    }

    /// `plan` is what there is to write for the update.
    pub open spec fn plans_update(
        self,
        update: LivePendingUpdate,
        plan: Option<PendingBlockPlan>,
    ) -> bool {
        match update.mode {
            LivePendingUpdateMode::Events => self.plans_events(update.block_number, plan),
            LivePendingUpdateMode::Records => self.plans_records(update.block_number, plan),
        }
    }

    /// The place, from `from` on, of the first update that is about a block after `after`
    /// and has content; the number of updates if there is none.
    pub open spec fn next_update(self, after: u64, from: int) -> int
        decreases self.pending_updates.len() - from,
    {
        if from < 0 || from >= self.pending_updates.len() {
            self.pending_updates.len() as int
        } else if self.pending_updates[from].block_number > after && self.has_content(
            self.pending_updates[from],
        ) {
            from
        } else {
            self.next_update(after, from + 1)
        }
    }

    /// The assembler without its first `count` updates.
    pub open spec fn without_updates(self, count: int) -> LiveState {
        LiveState { pending_updates: self.pending_updates.skip(count), ..self }
    }

    /// `block_number` is the first block after `after` that something is known of.
    pub open spec fn is_first_pending(self, after: u64, block_number: u64) -> bool {
        &&& block_number > after
        &&& self.is_pending(block_number)
        &&& forall|other: u64| other > after && #[trigger] self.is_pending(other) ==> block_number
            <= other
    }

    /// The first pending block after `after`, where no update leads to one: `plan` is what
    /// there is to write of its records.
    pub open spec fn plans_first_pending(
        self,
        after: u64,
        plan: Option<PendingBlockPlan>,
    ) -> bool {
        ||| plan is None && forall|other: u64| other > after ==> !#[trigger] self.is_pending(other)
        ||| exists|block_number: u64| #[trigger]
            self.is_first_pending(after, block_number) && self.plans_records(block_number, plan)
    }

    /// What asking for the next pending block after `after` leaves and answers: the first
    /// update that leads to one is used up with all before it; where none does, all are.
    pub open spec fn plans_next(
        self,
        after: u64,
        left: LiveState,
        plan: Option<PendingBlockPlan>,
    ) -> bool {
        let at = self.next_update(after, 0);
        if at < self.pending_updates.len() {
            &&& left == self.without_updates(at + 1)
            &&& plan is Some
            &&& self.plans_update(self.pending_updates[at], plan)
        } else {
            &&& left == self.without_updates(at)
            &&& left.plans_first_pending(after, plan)
        }
    }
}

impl LiveState {
    /// What there is to write does not depend on the updates that are left.
    pub proof fn lemma_updates_aside(
        self,
        other: LiveState,
        update: LivePendingUpdate,
        plan: Option<PendingBlockPlan>,
    )
        requires
            self.entries == other.entries,
            self.event_entries == other.event_entries,
        ensures
            self.has_content(update) == other.has_content(update),
            self.plans_update(update, plan) == other.plans_update(update, plan),
    {
        assert forall|list: Seq<LiveEntry>| #[trigger]
            self.lists_records(update.block_number, list) == other.lists_records(
                update.block_number,
                list,
            ) by {}
        assert forall|list: Seq<LiveEventEntry>| #[trigger]
            self.lists_events(update.block_number, list) == other.lists_events(
                update.block_number,
                list,
            ) by {}
        assert(self.has_records(update.block_number) == other.has_records(update.block_number));
        assert(self.has_events(update.block_number) == other.has_events(update.block_number));
        if let Some(plan) = plan {
            let n = update.block_number;
            if self.plans_events(n, Some(plan)) {
                let list = choose|list: Seq<LiveEventEntry>| #[trigger]
                    self.lists_events(n, list) && is_event_plan(n, list, plan);
                assert(other.lists_events(n, list));
            }
            if other.plans_events(n, Some(plan)) {
                let list = choose|list: Seq<LiveEventEntry>| #[trigger]
                    other.lists_events(n, list) && is_event_plan(n, list, plan);
                assert(self.lists_events(n, list));
            }
            if self.plans_records(n, Some(plan)) {
                let list = choose|list: Seq<LiveEntry>| #[trigger]
                    self.lists_records(n, list) && is_record_plan(n, list, plan);
                assert(other.lists_records(n, list));
            }
            if other.plans_records(n, Some(plan)) {
                let list = choose|list: Seq<LiveEntry>| #[trigger]
                    other.lists_records(n, list) && is_record_plan(n, list, plan);
                assert(self.lists_records(n, list));
            }
        }
    }
}

/// `plan` is to write the entries of `list` as block `block_number`: with their
/// transactions if all of them are there, else as receipts alone.
pub open spec fn is_record_plan(
    block_number: u64,
    list: Seq<LiveEntry>,
    plan: PendingBlockPlan,
) -> bool {
    &&& plan.block_number == block_number
    &&& plan.transaction_hashes@ == list.map_values(
        |entry: LiveEntry| entry.known_receipt().hash(),
    )
    &&& if all_transactions_known(list) {
        plan.body matches PendingBody::Transactions(transactions) && transactions@
            == list.map_values(|entry: LiveEntry| transaction_with_receipt(entry))
    } else {
        plan.body matches PendingBody::Receipts(receipts) && receipts@ == list.map_values(
            |entry: LiveEntry| entry.known_receipt().receipt,
        )
    }
}

pub open spec fn all_transactions_known(list: Seq<LiveEntry>) -> bool {
    forall|i: int| 0 <= i < list.len() ==> (#[trigger] list[i]).transaction is Some
}

/// The two halves of an entry that knows both.
pub open spec fn transaction_with_receipt(entry: LiveEntry) -> TransactionWithReceipt {
    TransactionWithReceipt {
        transaction: models::transaction_content(entry.transaction->0.txn),
        receipt: entry.known_receipt().receipt,
    }
}

/// `plan` is to write the events of `list` as block `block_number`.
pub open spec fn is_event_plan(
    block_number: u64,
    list: Seq<LiveEventEntry>,
    plan: PendingBlockPlan,
) -> bool {
    &&& plan.block_number == block_number
    &&& plan.transaction_hashes@ == list.map_values(
        |entry: LiveEventEntry| entry.event.emitted_event.transaction_hash,
    )
    &&& plan.body matches PendingBody::Events(events) && events@.map_values(
        |event: EmittedEventWithFinality| event@,
    ) == list.map_values(|entry: LiveEventEntry| entry.event@)
}

/// The entry is not settled by the acceptance of block `block_number`.
pub open spec fn outlives(entry: LiveEntry, block_number: u64) -> bool {
    entry.receipt matches Some(receipt) ==> receipt.block.number() > block_number
}

} // verus!
