//! The values that the node's messages carry.

use vstd::prelude::*;

verus! {

/// A Starknet transaction, whose content only the ingestion of blocks reads.
#[verifier::external_type_specification]
#[verifier::external_body]
pub struct ExTransaction(starknet_rust::core::types::Transaction);

/// A Starknet transaction receipt, whose content only the ingestion of blocks reads.
#[verifier::external_type_specification]
#[verifier::external_body]
pub struct ExTransactionReceipt(starknet_rust::core::types::TransactionReceipt);

/// A Starknet transaction without its hash, as blocks hold it.
#[verifier::external_type_specification]
#[verifier::external_body]
pub struct ExTransactionContent(starknet_rust::core::types::TransactionContent);

/// A transaction without its hash.
pub uninterp spec fn transaction_content(
    transaction: starknet_rust::core::types::Transaction,
) -> starknet_rust::core::types::TransactionContent;

/// `From` of `starknet_rust`'s `Transaction` for its `TransactionContent` leaves the hash
/// out: what comes depends on the transaction alone.
#[verifier::external_body]
pub(crate) fn content_of(
    transaction: starknet_rust::core::types::Transaction,
) -> (content: starknet_rust::core::types::TransactionContent)
    ensures
        content == transaction_content(transaction),
{
    starknet_rust::core::types::TransactionContent::from(transaction)
}

/// The hash that identifies a transaction.
pub uninterp spec fn transaction_hash(
    transaction: starknet_rust::core::types::Transaction,
) -> FieldElement;

/// The hash of the transaction that a receipt is of.
pub uninterp spec fn receipt_hash(
    receipt: starknet_rust::core::types::TransactionReceipt,
) -> FieldElement;

/// `transaction_hash` of `starknet_rust`'s `Transaction`, as the bytes that
/// `Felt::to_bytes_be` gives: what comes depends on the transaction alone.
#[verifier::external_body]
pub(crate) fn hash_of_transaction(
    transaction: &starknet_rust::core::types::Transaction,
) -> (hash: FieldElement)
    ensures
        hash == transaction_hash(*transaction),
{
    FieldElement { bytes: transaction.transaction_hash().to_bytes_be() }
}

/// `transaction_hash` of `starknet_rust`'s `TransactionReceipt`, as the bytes that
/// `Felt::to_bytes_be` gives: what comes depends on the receipt alone.
#[verifier::external_body]
pub(crate) fn hash_of_receipt(
    receipt: &starknet_rust::core::types::TransactionReceipt,
) -> (hash: FieldElement)
    ensures
        hash == receipt_hash(*receipt),
{
    FieldElement { bytes: receipt.transaction_hash().to_bytes_be() }
}

/// `Clone` of `starknet_rust`'s `Transaction` is derived: it copies every field, so
/// that the copy equals what it was made of.
pub assume_specification[ <starknet_rust::core::types::Transaction as Clone>::clone ](
    transaction: &starknet_rust::core::types::Transaction,
) -> (copy: starknet_rust::core::types::Transaction)
    ensures
        copy == *transaction,
;

/// `Clone` of `starknet_rust`'s `TransactionReceipt` is derived: it copies every field,
/// so that the copy equals what it was made of.
pub assume_specification[ <starknet_rust::core::types::TransactionReceipt as Clone>::clone ](
    receipt: &starknet_rust::core::types::TransactionReceipt,
) -> (copy: starknet_rust::core::types::TransactionReceipt)
    ensures
        copy == *receipt,
;

/// A field element, as its 32 bytes, most significant first.
#[derive(Debug, Clone, Copy, Eq)]
pub struct FieldElement {
    pub bytes: [u8; 32],
}

impl PartialEq for FieldElement {
    fn eq(&self, other: &Self) -> (same: bool) {
        let mut i: usize = 0;
        while i < 32
            invariant
                i <= 32,
                forall|j: int| 0 <= j < i ==> self.bytes@[j] == other.bytes@[j],
            decreases 32 - i,
        {
            if self.bytes[i] != other.bytes[i] {
                return false;
            }
            i += 1;
        }
        assert(self.bytes =~= other.bytes);
        true
    }
}

impl vstd::std_specs::cmp::PartialEqSpecImpl for FieldElement {
    open spec fn obeys_eq_spec() -> bool {
        true
    }

    open spec fn eq_spec(&self, other: &Self) -> bool {
        *self == *other
    }
}

/// A block hash of any width.
#[derive(Debug, PartialEq, Eq)]
pub struct Hash(pub Vec<u8>);

impl View for Hash {
    type V = Seq<u8>;

    open spec fn view(&self) -> Seq<u8> {
        self.0@
    }
}

impl Clone for Hash {
    fn clone(&self) -> (copy: Self)
        ensures
            copy@ == self@,
    {
        let bytes = self.0.clone();
        assert(bytes@ =~= self.0@);
        Hash(bytes)
    }
}

/// A position in the chain: a block's number and its hash.
#[derive(Debug, PartialEq, Eq)]
pub struct Cursor {
    pub number: u64,
    pub hash: Hash,
}

impl Cursor {
    pub fn new(number: u64, hash: Hash) -> (cursor: Cursor)
        ensures
            cursor.number == number,
            cursor.hash == hash,
    {
        Cursor { number, hash }
    }
}

/// How final a transaction is.
#[derive(Debug, Clone, Copy, PartialEq, Eq, Structural)]
pub enum TransactionFinalityStatus {
    PreConfirmed,
    AcceptedOnL2,
    AcceptedOnL1,
}

/// How final a transaction is on layer 2.
#[derive(Debug, Clone, Copy, PartialEq, Eq, Structural)]
pub enum L2TransactionFinalityStatus {
    PreConfirmed,
    AcceptedOnL2,
}

/// How far a transaction has come on layer 2, in the mempool included.
#[derive(Debug, Clone, Copy, PartialEq, Eq, Structural)]
pub enum L2TransactionStatus {
    Received,
    Candidate,
    PreConfirmed,
    AcceptedOnL2,
}

/// A transaction and how far it has come.
#[derive(Debug, PartialEq, Eq)]
pub struct TransactionWithL2Status {
    pub txn: starknet_rust::core::types::Transaction,
    pub finality_status: L2TransactionStatus,
}

impl TransactionWithL2Status {
    /// The hash that identifies the transaction.
    pub open spec fn hash(self) -> FieldElement {
        transaction_hash(self.txn)
    }
}

impl Clone for TransactionWithL2Status {
    fn clone(&self) -> (copy: Self)
        ensures
            copy == *self,
    {
        TransactionWithL2Status {
            txn: self.txn.clone(),
            finality_status: self.finality_status,
        }
    }
}

/// The block that a receipt is attached to.
#[derive(Debug, Clone, Copy, PartialEq, Eq)]
pub enum ReceiptBlock {
    PreConfirmed { block_number: u64 },
    Block { block_hash: FieldElement, block_number: u64 },
}

impl ReceiptBlock {
    /// The number of the block, whichever kind it is.
    pub open spec fn number(self) -> u64 {
        match self {
            ReceiptBlock::PreConfirmed { block_number } => block_number,
            ReceiptBlock::Block { block_hash: _, block_number } => block_number,
        }
    }

    pub fn block_number(&self) -> (block_number: u64)
        ensures
            block_number == self.number(),
    {
        match self {
            ReceiptBlock::PreConfirmed { block_number } => *block_number,
            ReceiptBlock::Block { block_hash: _, block_number } => *block_number,
        }
    }
}

/// A receipt and the block that it is attached to.
#[derive(Debug, PartialEq, Eq)]
pub struct TransactionReceiptWithBlockInfo {
    pub receipt: starknet_rust::core::types::TransactionReceipt,
    pub block: ReceiptBlock,
}

impl TransactionReceiptWithBlockInfo {
    /// The hash of the transaction that the receipt is of.
    pub open spec fn hash(self) -> FieldElement {
        receipt_hash(self.receipt)
    }
}

impl Clone for TransactionReceiptWithBlockInfo {
    fn clone(&self) -> (copy: Self)
        ensures
            copy == *self,
    {
        TransactionReceiptWithBlockInfo {
            receipt: self.receipt.clone(),
            block: self.block,
        }
    }
}

/// A transaction and its receipt.
#[derive(Debug, PartialEq, Eq)]
pub struct TransactionWithReceipt {
    pub transaction: starknet_rust::core::types::TransactionContent,
    pub receipt: starknet_rust::core::types::TransactionReceipt,
}

/// An event, with where it was emitted.
#[derive(Debug, PartialEq, Eq)]
pub struct EmittedEvent {
    pub from_address: FieldElement,
    pub keys: Vec<FieldElement>,
    pub data: Vec<FieldElement>,
    pub block_hash: Option<FieldElement>,
    pub block_number: Option<u64>,
    pub transaction_hash: FieldElement,
    pub transaction_index: u64,
    pub event_index: u64,
}

/// The contents of an [`EmittedEvent`].
pub struct EmittedEventView {
    pub from_address: FieldElement,
    pub keys: Seq<FieldElement>,
    pub data: Seq<FieldElement>,
    pub block_hash: Option<FieldElement>,
    pub block_number: Option<u64>,
    pub transaction_hash: FieldElement,
    pub transaction_index: u64,
    pub event_index: u64,
}

impl View for EmittedEvent {
    type V = EmittedEventView;

    open spec fn view(&self) -> EmittedEventView {
        EmittedEventView {
            from_address: self.from_address,
            keys: self.keys@,
            data: self.data@,
            block_hash: self.block_hash,
            block_number: self.block_number,
            transaction_hash: self.transaction_hash,
            transaction_index: self.transaction_index,
            event_index: self.event_index,
        }
    }
}

impl Clone for EmittedEvent {
    fn clone(&self) -> (copy: Self)
        ensures
            copy@ == self@,
    {
        let keys = self.keys.clone();
        let data = self.data.clone();
        assert(keys@ =~= self.keys@);
        assert(data@ =~= self.data@);
        EmittedEvent {
            from_address: self.from_address,
            keys,
            data,
            block_hash: self.block_hash,
            block_number: self.block_number,
            transaction_hash: self.transaction_hash,
            transaction_index: self.transaction_index,
            event_index: self.event_index,
        }
    }
}

/// An event and how final its transaction is.
#[derive(Debug, PartialEq, Eq)]
pub struct EmittedEventWithFinality {
    pub emitted_event: EmittedEvent,
    pub finality_status: TransactionFinalityStatus,
}

/// The contents of an [`EmittedEventWithFinality`].
pub struct EmittedEventWithFinalityView {
    pub emitted_event: EmittedEventView,
    pub finality_status: TransactionFinalityStatus,
}

impl View for EmittedEventWithFinality {
    type V = EmittedEventWithFinalityView;

    open spec fn view(&self) -> EmittedEventWithFinalityView {
        EmittedEventWithFinalityView {
            emitted_event: self.emitted_event@,
            finality_status: self.finality_status,
        }
    }
}

impl Clone for EmittedEventWithFinality {
    fn clone(&self) -> (copy: Self)
        ensures
            copy@ == self@,
    {
        EmittedEventWithFinality {
            emitted_event: self.emitted_event.clone(),
            finality_status: self.finality_status,
        }
    }
}

/// A storage slot and its new value.
#[derive(Debug, Clone, Copy, PartialEq, Eq)]
pub struct StorageEntry {
    pub key: FieldElement,
    pub value: FieldElement,
}

/// The storage slots that a block changed in one contract.
#[derive(Debug, PartialEq, Eq)]
pub struct ContractStorageDiffItem {
    pub address: FieldElement,
    pub storage_entries: Vec<StorageEntry>,
}

/// A class that a block declared.
#[derive(Debug, Clone, Copy, PartialEq, Eq)]
pub struct DeclaredClassItem {
    pub class_hash: FieldElement,
    pub compiled_class_hash: FieldElement,
}

/// A class whose compiled class hash a block migrated.
#[derive(Debug, Clone, Copy, PartialEq, Eq)]
pub struct MigratedCompiledClassItem {
    pub class_hash: FieldElement,
    pub compiled_class_hash: FieldElement,
}

/// A contract that a block deployed.
#[derive(Debug, Clone, Copy, PartialEq, Eq)]
pub struct DeployedContractItem {
    pub address: FieldElement,
    pub class_hash: FieldElement,
}

/// A contract whose class a block replaced.
#[derive(Debug, Clone, Copy, PartialEq, Eq)]
pub struct ReplacedClassItem {
    pub contract_address: FieldElement,
    pub class_hash: FieldElement,
}

/// A contract whose nonce a block changed.
#[derive(Debug, Clone, Copy, PartialEq, Eq)]
pub struct NonceUpdate {
    pub contract_address: FieldElement,
    pub nonce: FieldElement,
}

/// The change of state that a block applies.
#[derive(Debug, PartialEq, Eq)]
pub struct StateDiff {
    pub storage_diffs: Vec<ContractStorageDiffItem>,
    pub deprecated_declared_classes: Vec<FieldElement>,
    pub declared_classes: Vec<DeclaredClassItem>,
    pub migrated_compiled_classes: Option<Vec<MigratedCompiledClassItem>>,
    pub deployed_contracts: Vec<DeployedContractItem>,
    pub replaced_classes: Vec<ReplacedClassItem>,
    pub nonces: Vec<NonceUpdate>,
}

/// How final a block is.
#[derive(Debug, Clone, Copy, PartialEq, Eq, Structural)]
pub enum BlockStatus {
    PreConfirmed,
    AcceptedOnL2,
    AcceptedOnL1,
}

/// What identifies a confirmed block, and how final it is.
#[derive(Debug, Clone, Copy, PartialEq, Eq)]
pub struct BlockWithTxHashes {
    pub status: BlockStatus,
    pub block_hash: FieldElement,
    pub block_number: u64,
}

/// A block that may not have been confirmed yet.
#[derive(Debug, Clone, Copy, PartialEq, Eq)]
pub enum MaybePreConfirmedBlockWithTxHashes {
    Block(BlockWithTxHashes),
    PreConfirmedBlock,
}

/// The width of a hash in a cursor, in bytes.
pub const HASH_WIDTH: usize = 32;

/// `bytes` as a big-endian number of [`HASH_WIDTH`] bytes: padded with zeros on the
/// left, or cut down to its least significant bytes.
pub open spec fn fixed_width(bytes: Seq<u8>) -> Seq<u8> {
    Seq::new(
        HASH_WIDTH as nat,
        |i: int|
            {
                let from = bytes.len() - HASH_WIDTH + i;
                if from < 0 {
                    0
                } else {
                    bytes[from]
                }
            },
    )
}

/// The hash of fixed width that big-endian `bytes` stand for.
pub(crate) fn fixed_width_hash(bytes: &[u8]) -> (hash: Hash)
    ensures
        hash@ == fixed_width(bytes@),
{
    let mut out: Vec<u8> = Vec::new();
    let mut i: usize = 0;
    while i < HASH_WIDTH
        invariant
            i <= HASH_WIDTH,
            out@.len() == i,
            forall|j: int| 0 <= j < i ==> out@[j] == fixed_width(bytes@)[j],
        decreases HASH_WIDTH - i,
    {
        let behind: usize = HASH_WIDTH - i;
        if behind <= bytes.len() {
            out.push(bytes[bytes.len() - behind]);
        } else {
            out.push(0);
        }
        i += 1;
    }
    assert(out@ =~= fixed_width(bytes@));
    Hash(out)
}

/// The bytes of a field element, as a block hash.
pub fn felt_to_hash(value: &FieldElement) -> (hash: Hash)
    ensures
        hash@ == value.bytes@,
{
    let hash = fixed_width_hash(value.bytes.as_slice());
    assert(hash@ =~= value.bytes@);
    hash
}

/// What the ingestion of blocks asks of a block.
pub trait BlockExt {
    fn is_finalized(&self) -> bool;

    fn cursor(&self) -> Option<Cursor>;
}

impl BlockExt for MaybePreConfirmedBlockWithTxHashes {
    fn is_finalized(&self) -> (finalized: bool)
        ensures
            finalized == (self matches MaybePreConfirmedBlockWithTxHashes::Block(block)
                && block.status == BlockStatus::AcceptedOnL1),
    {
        match self {
            MaybePreConfirmedBlockWithTxHashes::Block(block) => block.status
                == BlockStatus::AcceptedOnL1,
            MaybePreConfirmedBlockWithTxHashes::PreConfirmedBlock => false,
        }
    }

    fn cursor(&self) -> (cursor: Option<Cursor>)
        ensures
            match self {
                MaybePreConfirmedBlockWithTxHashes::Block(block) => {
                    &&& cursor is Some
                    &&& cursor->0.number == block.block_number
                    &&& cursor->0.hash@ == block.block_hash.bytes@
                },
                MaybePreConfirmedBlockWithTxHashes::PreConfirmedBlock => cursor is None,
            },
    {
        match self {
            MaybePreConfirmedBlockWithTxHashes::Block(block) => Some(
                Cursor::new(block.block_number, felt_to_hash(&block.block_hash)),
            ),
            MaybePreConfirmedBlockWithTxHashes::PreConfirmedBlock => None,
        }
    }
}

} // verus!
