//! Live assembly of pending blocks.

pub mod assembler;
pub mod block;
pub mod laws;
pub mod meaning;
pub mod model;
pub mod order;
pub mod table;

pub use self::assembler::StarknetLiveAssembler;
pub use self::block::LivePendingBlock;
pub use self::model::{LiveAssemblerInsert, PendingBlockPlan, PendingBody};
