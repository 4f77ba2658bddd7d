//! Pending blocks, as they are written.

use vstd::prelude::*;

use super::model::PendingBlockPlan;
use crate::provider::models::{FieldElement, StateDiff};

verus! {

/// The encoded header of a block.
#[derive(Debug)]
pub struct HeaderFragment {
    pub data: Vec<u8>,
}

/// The indexes of a block.
#[derive(Debug)]
pub struct IndexGroupFragment<I> {
    pub indexes: Vec<I>,
}

/// The joins of a block.
#[derive(Debug)]
pub struct JoinGroupFragment<J> {
    pub joins: Vec<J>,
}

/// A block, as the fragments that it is stored as.
#[derive(Debug)]
pub struct Block<B, I, J> {
    pub header: HeaderFragment,
    pub index: IndexGroupFragment<I>,
    pub body: Vec<B>,
    pub join: JoinGroupFragment<J>,
}

/// The fragments that part of a block's content was turned into.
#[derive(Debug)]
pub struct BlockIngestionResult<B, I, J> {
    pub body: Vec<B>,
    pub index: Vec<I>,
    pub join: Vec<J>,
}

/// A pending block fragment assembled from live Starknet websocket data.
#[derive(Debug)]
pub struct LivePendingBlock<B, I, J> {
    pub block_number: u64,
    pub transaction_hashes: Vec<FieldElement>,
    pub block: Block<B, I, J>,
}

/// The state update of a pending block: live data says nothing of the state.
pub fn empty_state_diff() -> (diff: StateDiff)
    ensures
        diff.storage_diffs@.len() == 0,
        diff.deprecated_declared_classes@.len() == 0,
        diff.declared_classes@.len() == 0,
        diff.migrated_compiled_classes is None,
        diff.deployed_contracts@.len() == 0,
        diff.replaced_classes@.len() == 0,
        diff.nonces@.len() == 0,
{
    StateDiff {
        storage_diffs: Vec::new(),
        deprecated_declared_classes: Vec::new(),
        declared_classes: Vec::new(),
        migrated_compiled_classes: None,
        deployed_contracts: Vec::new(),
        replaced_classes: Vec::new(),
        nonces: Vec::new(),
    }
}

impl PendingBlockPlan {
    /// Puts a pending block together.
    ///
    /// `content` is what the plan's body was turned into, `state_update` what
    /// [`empty_state_diff`] was turned into, and `header` the encoding of a header that
    /// says nothing but the plan's block number.
    pub fn finish_pending_block<B, I, J>(
        self,
        content: BlockIngestionResult<B, I, J>,
        state_update: BlockIngestionResult<B, I, J>,
        header: Vec<u8>,
    ) -> (pending: LivePendingBlock<B, I, J>)
        ensures
            pending.block_number == self.block_number,
            pending.transaction_hashes == self.transaction_hashes,
            pending.block.header.data == header,
            pending.block.body@ == content.body@ + state_update.body@,
            pending.block.index.indexes@ == content.index@ + state_update.index@,
            pending.block.join.joins@ == content.join@ + state_update.join@,
    {
        let mut content = content;
        let mut state_update = state_update;
        content.body.append(&mut state_update.body);
        content.index.append(&mut state_update.index);
        content.join.append(&mut state_update.join);
        LivePendingBlock {
            block_number: self.block_number,
            transaction_hashes: self.transaction_hashes,
            block: Block {
                header: HeaderFragment { data: header },
                index: IndexGroupFragment { indexes: content.index },
                body: content.body,
                join: JoinGroupFragment { joins: content.join },
            },
        }
    }
}

} // verus!
