//! Logical buffers: what a tensor holds, with or without device memory behind it.
use vstd::prelude::*;
use crate::queue::BufferReferenceId;
use crate::queue::CachedBufferId;
use crate::queue::DispatchedBindgroup;
use crate::queue::MlQueueDispatch;

verus! {

/// A logical buffer.
#[derive(Clone, Copy, Debug, PartialEq, Eq, Hash, Structural)]
pub struct BufferReference {
    /// The bytes asked for.
    pub size: u64,
    /// The storage buffer that backs it, once it has one.
    pub storage: Option<CachedBufferId>,
    /// Whether a tensor still refers to it.
    pub referenced_by_storage: bool,
}

/// The logical buffers that a queued dispatch binds, the destination first. A dispatch
/// that is already resolved binds none.
pub open spec fn record_buffers(record: MlQueueDispatch) -> Seq<BufferReferenceId> {
    match record.bindgroup {
        DispatchedBindgroup::BindgroupReference(br) => br.buffers(),
        _ => Seq::<BufferReferenceId>::empty(),
    }
}

/// Whether the dispatch at place `i` binds the logical buffer `b`.
pub open spec fn uses(records: Seq<MlQueueDispatch>, i: int, b: BufferReferenceId) -> bool {
    0 <= i < records.len() && record_buffers(records[i]).contains(b)
}

/// Whether every dispatch binds only logical buffers with a number below `count`.
pub open spec fn buffers_known(records: Seq<MlQueueDispatch>, count: int) -> bool {
    forall|i: int, b: BufferReferenceId| #[trigger] uses(records, i, b) ==> b < count
}

} // verus!
