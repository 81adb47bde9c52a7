//! The user-facing handler boundary: one handler per (stream, partition),
//! created by a user-supplied factory and invoked serially by that
//! partition's worker.

use vstd::prelude::*;

use crate::model::AfterBatchAction;
use crate::model::BatchInfo;
use crate::model::PartitionId;

verus! {

/// Processes the events of one batch and steers the worker with its
/// verdict.  Called on the worker's thread of control, one batch at a
/// time, in arrival order.
pub trait Handler {
    fn handle(&mut self, events: &[u8], info: BatchInfo) -> AfterBatchAction;
}

/// Creates one handler per partition; each handler lives exactly as long
/// as its (stream, partition) pair.
pub trait HandlerFactory {
    type Handler: Handler;

    fn create_handler(&self, partition: &PartitionId) -> Self::Handler;
}

} // verus!
