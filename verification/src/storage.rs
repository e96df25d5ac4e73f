//! What the tensor layer asks of a device: buffers, synchronisation and readback.
use vstd::prelude::*;
use crate::buffer::uses;
use crate::buffer::BufferReference;
use crate::bytes::in_memory;
use crate::bytes::words_to_bytes;
use crate::cache::ModelCache;
use crate::device::WgpuDevice;
use crate::dtype::DType;
use crate::dtype::WebGpuError;
use crate::flush::flush_gpu_command;
use crate::flush::flush_sent;
use crate::plan::FlushPlan;
use crate::pool::fits;
use crate::pool::is_best_fit;
use crate::pool::CachedBuffer;
use crate::pool::StorageState;
use crate::queue::BindgroupId;
use crate::queue::BufferReferenceId;
use crate::queue::CachedBufferId;
use crate::queue::DispatchedBindgroup;
use crate::queue::MlQueueDispatch;

verus! {

/// A logical buffer that was made with contents: what the device has to do for it.
#[derive(Debug)]
pub struct BufferInit {
    /// The new logical buffer.
    pub buffer: BufferReferenceId,
    /// The storage buffer that backs it.
    pub storage: CachedBufferId,
    /// Whether the storage buffer is new and has yet to be made on the device.
    pub created: bool,
    /// The bytes to write to the storage buffer.
    pub data: Vec<u8>,
}

/// The size in bytes of a buffer of `words` words.
pub open spec fn byte_size(words: nat) -> u64 {
    (4 * words) as u64
}

/// A new logical buffer of `size` bytes without storage; it gets storage when a dispatch
/// that binds it is resolved.
pub fn create_buffer_reference(dev: &mut WgpuDevice, size: u64) -> (r: BufferReferenceId)
    requires
        old(dev).wf(),
        size > 0,
    ensures
        final(dev).wf(),
        r == old(dev).cache.references@.len(),
        final(dev).cache.references@ == old(dev).cache.references@.push(
            BufferReference { size, storage: None, referenced_by_storage: false },
        ),
        final(dev).cache.buffers == old(dev).cache.buffers,
        final(dev).cache.bindgroups == old(dev).cache.bindgroups,
        final(dev).cache.max_bindgroups == old(dev).cache.max_bindgroups,
        final(dev).cache.mappings == old(dev).cache.mappings,
        final(dev).command_queue == old(dev).command_queue,
        final(dev).shader == old(dev).shader,
        final(dev).device_limits == old(dev).device_limits,
        final(dev).use_cache == old(dev).use_cache,
        final(dev).matmul_alg == old(dev).matmul_alg,
{
    dev.cache.create_reference(size)
}

/// Whether `after` is `before` with one more logical buffer that holds the words `data`,
/// and `r` describes that buffer: it has storage of at least four bytes for each word,
/// the best fit among the free storage buffers or, where none fits, a new one; and `r`
/// carries the bytes of the words, as they lie in memory, to write there.
pub open spec fn initialised(
    before: WgpuDevice,
    after: WgpuDevice,
    r: BufferInit,
    data: Seq<u32>,
) -> bool {
    let size = byte_size(data.len());
    &&& in_memory(data, r.data@)
    &&& r.buffer == before.cache.references@.len()
    &&& after.cache.references@ == before.cache.references@.push(
        BufferReference { size, storage: Some(r.storage), referenced_by_storage: false },
    )
    &&& r.created <==> forall|j: int| !#[trigger] fits(before.cache.pool(), j, size)
    &&& r.created ==> r.storage == before.cache.pool().len() && after.cache.pool()
        == before.cache.pool().push(CachedBuffer { size, state: StorageState::InUse })
    &&& !r.created ==> is_best_fit(before.cache.pool(), r.storage as int, size)
        && after.cache.pool() == before.cache.pool().update(
        r.storage as int,
        CachedBuffer { size: before.cache.pool()[r.storage as int].size,
            state: StorageState::InUse },
    )
    &&& after.cache.bindgroups == before.cache.bindgroups
    &&& after.cache.max_bindgroups == before.cache.max_bindgroups
    &&& after.cache.mappings == before.cache.mappings
    &&& after.cache.buffers.max_memory_allowed == before.cache.buffers.max_memory_allowed
    &&& after.command_queue == before.command_queue
    &&& after.shader == before.shader
    &&& after.device_limits == before.device_limits
    &&& after.use_cache == before.use_cache
    &&& after.matmul_alg == before.matmul_alg
}

/// A new logical buffer that holds the given words: it gets storage at once, of four
/// bytes for each word, and the result carries the bytes to write there.
pub fn create_buffer_init(dev: &mut WgpuDevice, data: &[u32]) -> (r: BufferInit)
    requires
        old(dev).wf(),
    ensures
        final(dev).wf(),
        initialised(*old(dev), *final(dev), r, data@),
{
    let bytes: Vec<u8> = words_to_bytes(data);
    let (buffer, storage, created) = dev.cache.create_reference_init(bytes.len() as u64);
    BufferInit { buffer, storage, created, data: bytes }
}

/// A new logical buffer that holds the elements of a tensor, given as the words that
/// stand for them. Only the element types of four bytes can be had; any other is
/// rejected, and nothing changes.
pub fn storage_from_slice(dev: &mut WgpuDevice, dtype: DType, data: &[u32]) -> (r: Result<
    BufferInit,
    WebGpuError,
>)
    requires
        old(dev).wf(),
    ensures
        final(dev).wf(),
        dtype == DType::F32 || dtype == DType::U32 ==> r is Ok && initialised(
            *old(dev),
            *final(dev),
            r->Ok_0,
            data@,
        ),
        !(dtype == DType::F32 || dtype == DType::U32) ==> r == Err::<BufferInit, WebGpuError>(
            WebGpuError::UnsupportedDType(dtype),
        ) && *final(dev) == *old(dev),
{
    if dtype == DType::F32 || dtype == DType::U32 {
        Ok(create_buffer_init(dev, data))
    } else {
        Err(WebGpuError::UnsupportedDType(dtype))
    }
}

/// A new logical buffer for a tensor of `elem_count` elements whose contents do not
/// matter yet. Only the element types of four bytes can be had; any other is rejected,
/// and nothing changes.
pub fn alloc_uninit(dev: &mut WgpuDevice, elem_count: usize, dtype: DType) -> (r: Result<
    BufferReferenceId,
    WebGpuError,
>)
    requires
        old(dev).wf(),
        0 < elem_count * 4 <= usize::MAX,
    ensures
        final(dev).wf(),
        dtype == DType::F32 || dtype == DType::U32 ==> r == Ok::<BufferReferenceId, WebGpuError>(
            old(dev).cache.references@.len() as usize,
        ) && final(dev).cache.references@ == old(dev).cache.references@.push(
            BufferReference {
                size: (elem_count * 4) as u64,
                storage: None,
                referenced_by_storage: false,
            },
        ) && final(dev).cache.buffers == old(dev).cache.buffers && final(dev).cache.bindgroups
            == old(dev).cache.bindgroups && final(dev).cache.max_bindgroups ==
                old(dev).cache.max_bindgroups && final(dev).cache.mappings ==
                old(dev).cache.mappings && final(dev).command_queue ==
                old(dev).command_queue && final(dev).shader == old(dev).shader &&
                final(dev).device_limits == old(dev).device_limits
            && final(dev).use_cache == old(dev).use_cache && final(dev).matmul_alg ==
                old(dev).matmul_alg,
        !(dtype == DType::F32 || dtype == DType::U32) ==> r == Err::<
            BufferReferenceId,
            WebGpuError,
        >(WebGpuError::UnsupportedDType(dtype)) && *final(dev) == *old(dev),
{
    if dtype == DType::F32 || dtype == DType::U32 {
        Ok(create_buffer_reference(dev, (elem_count * 4) as u64))
    } else {
        Err(WebGpuError::UnsupportedDType(dtype))
    }
}

/// Whether a queued dispatch binds the logical buffer.
pub fn is_queued(records: &Vec<MlQueueDispatch>, buffer: BufferReferenceId) -> (r: bool)
    ensures
        r == exists|i: int| #[trigger] uses(records@, i, buffer),
{
    let mut i: usize = 0;
    while i < records.len()
        invariant
            i <= records@.len(),
            forall|j: int| 0 <= j < i ==> !uses(records@, j, buffer),
        decreases records@.len() - i,
    {
        match records[i].bindgroup {
            DispatchedBindgroup::BindgroupReference(br) => {
                let len: usize = br.len();
                let mut k: usize = 0;
                while k < len
                    invariant
                        i < records@.len(),
                        records@[i as int].bindgroup == DispatchedBindgroup::BindgroupReference(br),
                        len == br.buffers().len(),
                        k <= len,
                        forall|m: int| 0 <= m < k ==> br.buffers()[m] != buffer,
                    decreases len - k,
                {
                    if br.get(k) == buffer {
                        assert(br.buffers().contains(buffer));
                        assert(uses(records@, i as int, buffer));
                        return true;
                    }
                    k = k + 1;
                }
            },
            _ => {},
        }
        i = i + 1;
    }
    false
}

/// Records that a tensor refers to a logical buffer from now on.
pub fn hold_buffer(dev: &mut WgpuDevice, buffer: BufferReferenceId)
    requires
        old(dev).wf(),
        buffer < old(dev).cache.references@.len(),
    ensures
        final(dev).wf(),
        final(dev).cache.references@ == old(dev).cache.references@.update(
            buffer as int,
            BufferReference {
                referenced_by_storage: true,
                ..old(dev).cache.references@[buffer as int]
            },
        ),
        final(dev).cache.buffers == old(dev).cache.buffers,
        final(dev).cache.bindgroups == old(dev).cache.bindgroups,
        final(dev).cache.max_bindgroups == old(dev).cache.max_bindgroups,
        final(dev).cache.mappings == old(dev).cache.mappings,
        final(dev).command_queue == old(dev).command_queue,
        final(dev).shader == old(dev).shader,
        final(dev).device_limits == old(dev).device_limits,
        final(dev).use_cache == old(dev).use_cache,
        final(dev).matmul_alg == old(dev).matmul_alg,
{
    dev.cache.set_referenced(buffer, true);
}

/// Records that no tensor refers to a logical buffer any more. If no queued dispatch
/// binds the buffer either, its storage goes back to the pool at once; otherwise it does
/// so when the last such dispatch is resolved.
pub fn drop_buffer(dev: &mut WgpuDevice, buffer: BufferReferenceId)
    requires
        old(dev).wf(),
        buffer < old(dev).cache.references@.len(),
    ensures
        final(dev).wf(),
        final(dev).cache.references@ == old(dev).cache.references@.update(
            buffer as int,
            BufferReference {
                size: old(dev).cache.references@[buffer as int].size,
                storage: if exists|i: int| #[trigger]
                    uses(old(dev).command_queue.records(), i, buffer) {
                    old(dev).cache.references@[buffer as int].storage
                } else {
                    None
                },
                referenced_by_storage: false,
            },
        ),
        (exists|i: int| #[trigger] uses(old(dev).command_queue.records(), i, buffer)) ||
            old(dev).cache.references@[buffer as int].storage is None ==> final(dev).cache.pool() ==
            old(dev).cache.pool(),
        !(exists|i: int| #[trigger] uses(old(dev).command_queue.records(), i, buffer)) ==>
            (old(dev).cache.references@[buffer as int].storage matches Some(s) ==>
            final(dev).cache.pool()
            == old(dev).cache.pool().update(
            s as int,
            CachedBuffer { size: old(dev).cache.pool()[s as int].size, state: StorageState::Free },
        )),
        final(dev).cache.buffers.max_memory_allowed == old(dev).cache.buffers.max_memory_allowed,
        final(dev).cache.bindgroups == old(dev).cache.bindgroups,
        final(dev).cache.max_bindgroups == old(dev).cache.max_bindgroups,
        final(dev).cache.mappings == old(dev).cache.mappings,
        final(dev).command_queue == old(dev).command_queue,
        final(dev).shader == old(dev).shader,
        final(dev).device_limits == old(dev).device_limits,
        final(dev).use_cache == old(dev).use_cache,
        final(dev).matmul_alg == old(dev).matmul_alg,
{
    dev.cache.set_referenced(buffer, false);
    if !is_queued(&dev.command_queue.command_queue, buffer) {
        dev.cache.release(buffer);
    }
    assert(dev.cache.references@ =~= old(dev).cache.references@.update(
        buffer as int,
        BufferReference {
            size: old(dev).cache.references@[buffer as int].size,
            storage: if exists|i: int| #[trigger]
                uses(old(dev).command_queue.records(), i, buffer) {
                old(dev).cache.references@[buffer as int].storage
            } else {
                None
            },
            referenced_by_storage: false,
        },
    ));
}

impl WgpuDevice {
    /// Empties the cache of the device of everything that is not in use; see
    /// [`ModelCache::clear`]. The result lists the binding objects and the storage buffers
    /// that the device may destroy.
    pub fn clear_cache(&mut self) -> (r: (Vec<BindgroupId>, Vec<CachedBufferId>))
        requires
            old(self).wf(),
        ensures
            final(self).wf(),
            final(self).cache.references == old(self).cache.references,
            final(self).cache.max_bindgroups == old(self).cache.max_bindgroups,
            final(self).cache.buffers.max_memory_allowed ==
                old(self).cache.buffers.max_memory_allowed,
            final(self).cache.bindgroups@.len() == old(self).cache.bindgroups@.len(),
            forall|g: int|
                0 <= g < old(self).cache.bindgroups@.len() ==> !(
                #[trigger] final(self).cache.bindgroups@[g]).alive &&
                    final(self).cache.bindgroups@[g].key
                    == old(self).cache.bindgroups@[g].key,
            final(self).cache.pool().len() == old(self).cache.pool().len(),
            forall|s: int|
                0 <= s < old(self).cache.pool().len() ==>
                    (#[trigger] final(self).cache.pool()[s]) == (
                if old(self).cache.pool()[s].state is Free {
                    CachedBuffer { size: old(self).cache.pool()[s].size,
                        state: StorageState::Deleted }
                } else {
                    old(self).cache.pool()[s]
                }),
            forall|g: BindgroupId|
                r.0@.contains(g) <==> g < old(self).cache.bindgroups@.len() &&
                    old(self).cache.bindgroups@[g as int].alive,
            forall|s: CachedBufferId|
                r.1@.contains(s) <==> s < old(self).cache.pool().len() &&
                    old(self).cache.pool()[s as int].state
                    is Free,
            final(self).command_queue == old(self).command_queue,
            final(self).shader == old(self).shader,
            final(self).device_limits == old(self).device_limits,
            final(self).use_cache == old(self).use_cache,
            final(self).matmul_alg == old(self).matmul_alg,
    {
        self.cache.clear()
    }
}

/// Sends what is queued to the device, if anything is. Where the result holds a plan the
/// caller submits it and waits until the device has done the work; where it holds none
/// there is nothing to wait for.
pub fn synchronize(dev: &mut WgpuDevice) -> (r: Option<FlushPlan>)
    requires
        old(dev).wf(),
    ensures
        final(dev).wf(),
        r is Some <==> old(dev).command_queue.records().len() > 0,
        r is None ==> *final(dev) == *old(dev),
        r matches Some(plan) ==> flush_sent(*old(dev), *final(dev), plan)
            && plan.command_buffers@.len() > 0,
{
    if dev.command_queue.command_queue.len() > 0 {
        Some(flush_gpu_command(dev))
    } else {
        None
    }
}

/// What reading a logical buffer back takes: the plan of the flush that goes before, and
/// the storage buffer to copy from with the number of bytes to copy.
#[derive(Debug)]
pub struct ReadbackPlan {
    /// The command buffers to submit before the copy.
    pub flush: FlushPlan,
    /// The storage buffer to copy into the staging buffer; none where the logical buffer
    /// has no storage, so that there is nothing to read.
    pub source: Option<CachedBufferId>,
    /// The size of the staging buffer: the bytes that the logical buffer asked for.
    pub size: u64,
}

/// Plans the readback of a logical buffer: everything queued is sent to the device
/// first, then the buffer's storage is copied, in the size of the logical buffer. A
/// buffer that has no storage once the queue is flushed cannot be read.
pub fn read_data_from_gpu(dev: &mut WgpuDevice, buffer: BufferReferenceId) -> (r: ReadbackPlan)
    requires
        old(dev).wf(),
        buffer < old(dev).cache.references@.len(),
    ensures
        final(dev).wf(),
        flush_sent(*old(dev), *final(dev), r.flush),
        r.flush.command_buffers@.len() > 0 <==> old(dev).command_queue.records().len() > 0,
        r.size == old(dev).cache.references@[buffer as int].size,
        r.source == final(dev).cache.references@[buffer as int].storage,
        r.source matches Some(s) ==> s < final(dev).cache.pool().len() &&
            final(dev).cache.pool()[s as int].state
            is InUse && final(dev).cache.pool()[s as int].size >= r.size,
        old(dev).command_queue.records().len() == 0 ==> r.source ==
            old(dev).cache.references@[buffer as int].storage,
{
    let flush: FlushPlan = flush_gpu_command(dev);
    let reference: BufferReference = dev.cache.references[buffer];
    ReadbackPlan { flush, source: reference.storage, size: reference.size }
}

} // verus!
