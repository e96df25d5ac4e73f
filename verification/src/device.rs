//! The device context: the state that every operation on one device works on.
use vstd::prelude::*;
use crate::buffer::buffers_known;
use crate::buffer::record_buffers;
use crate::buffer::uses;
use crate::kernels::Constants;
use crate::kernels::Pipelines;
use crate::meta::next_divisible_spec;
use crate::kernels::GENERAL_CONSTANTS;
use crate::queue::enqueue_workgroups;
use crate::queue::general_constants;
use crate::queue::lemma_position_of;
use crate::queue::position_of;
use crate::queue::MAX_DISPATCH_SIZE;
use crate::queue::BindGroupReference;
use crate::queue::DispatchedBindgroup;
use crate::queue::MlQueueDispatch;
use crate::queue::OpIsInplaceable;
use crate::queue::PipelineType;
use crate::cache::ModelCache;
use crate::pipeline::ShaderModuleComputePipelines;
use crate::queue::QueueBuffer;

verus! {

/// What the scheduler needs to know of the limits of a device.
#[derive(Clone, Copy, Debug, PartialEq, Eq, Hash, Structural)]
pub struct DeviceLimits {
    /// The alignment that the device asks of a storage buffer offset, in bytes.
    pub min_storage_buffer_offset_alignment: u32,
}

/// The kernels that a matrix multiplication can be run with.
#[allow(non_camel_case_types)]
#[derive(Clone, Copy, Debug, PartialEq, Eq, Hash, Structural)]
pub enum MatmulAlgorithm {
    Matmul7,
    Matmul1,
    Matmul5,
    Matmul5_32_32,
    Matuml5_64_64,
    Matmul5_128_128,
    Matmul5_64_64_8_8,
    Matmul5_16_64,
}

/// The state of one device: its limits, its compiled programs, the queue of pending
/// dispatches and the cache of buffers and binding objects.
#[derive(Debug)]
pub struct WgpuDevice {
    pub device_limits: DeviceLimits,
    pub shader: ShaderModuleComputePipelines,
    pub command_queue: QueueBuffer,
    pub cache: ModelCache,
    pub use_cache: bool,
    pub matmul_alg: MatmulAlgorithm,
}

impl DeviceLimits {
    /// The limits the scheduler can work with: an offset alignment of at least one word.
    pub open spec fn wf(&self) -> bool {
        4 <= self.min_storage_buffer_offset_alignment <= i32::MAX
    }

    /// The alignment of parameter offsets, in words.
    pub open spec fn alignment_words(&self) -> int {
        self.min_storage_buffer_offset_alignment as int / 4
    }
}

impl WgpuDevice {
    /// The invariant of the device state: the parts are well formed, the parameter
    /// offsets of the queued dispatches are aligned as the device asks, and the queued
    /// dispatches bind only logical buffers that exist.
    pub open spec fn wf(&self) -> bool {
        &&& self.device_limits.wf()
        &&& self.shader.wf()
        &&& self.command_queue.wf()
        &&& self.command_queue.aligned(self.device_limits.alignment_words())
        &&& self.cache.wf()
        &&& buffers_known(self.command_queue.records(), self.cache.references@.len() as int)
    }

    /// The state of a device that has done nothing yet. Its cache of binding objects
    /// reports pressure once more than `max_bindgroups` binding objects exist.
    pub fn new(device_limits: DeviceLimits, max_bindgroups: usize) -> (r: WgpuDevice)
        requires
            device_limits.wf(),
        ensures
            r.wf(),
            r.device_limits == device_limits,
            r.command_queue.records().len() == 0,
            r.command_queue.meta().len() == 0,
            r.command_queue.current_meta == 0,
            r.command_queue.const_id_map.sets().len() == 0,
            r.cache.references@.len() == 0,
            r.cache.pool().len() == 0,
            r.cache.bindgroups@.len() == 0,
            r.cache.max_bindgroups == max_bindgroups,
            r.cache.buffers.max_memory_allowed == 0,
            r.shader.pipelines@.len() == 0,
            r.shader.shaders@.len() == 0,
            r.use_cache,
            r.matmul_alg == MatmulAlgorithm::Matmul7,
    {
        WgpuDevice {
            device_limits,
            shader: ShaderModuleComputePipelines::new(),
            command_queue: QueueBuffer::new(),
            cache: ModelCache::new(max_bindgroups),
            use_cache: true,
            matmul_alg: MatmulAlgorithm::Matmul7,
        }
    }
}

/// The queue as a value: what its dispatches, its blob and its constant sets are.
pub struct QueueView {
    /// The queued dispatches, in queue order.
    pub records: Seq<MlQueueDispatch>,
    /// The parameter blob.
    pub meta: Seq<u32>,
    /// The constants of the dispatch under construction.
    pub constants: Seq<(Constants, u32)>,
    /// The constant sets in use, by number.
    pub sets: Seq<Seq<(Constants, u32)>>,
    /// Where the parameters of the dispatch under construction begin, in words.
    pub current_meta: u32,
}

/// The blob after it was padded with zero words up to the aligned offset `start` and the
/// parameters `words` were written behind.
pub open spec fn meta_with(meta: Seq<u32>, start: int, words: Seq<u32>) -> Seq<u32> {
    meta + Seq::new((start - meta.len()) as nat, |i: int| 0u32) + words
}

/// The queue after the parameters of a new dispatch were begun at the next offset that
/// is a multiple of `alignment_words` and `words` were written there.
pub open spec fn begun(queue: QueueView, alignment_words: int, words: Seq<u32>) -> QueueView {
    let start = next_divisible_spec(queue.meta.len() as int, alignment_words);
    QueueView {
        meta: meta_with(queue.meta, start, words),
        current_meta: start as u32,
        ..queue
    }
}

/// The queue after the dispatch under construction was closed and queued: its constant
/// set (the constants under construction, then `constants`) gets the number of the first
/// equal set of the table, or is added to the table, and the dispatch stands at the end
/// of the queue, with its parameters where they were begun.
pub open spec fn closed(
    queue: QueueView,
    constants: Seq<(Constants, u32)>,
    kernel: Pipelines,
    inplaceable: OpIsInplaceable,
    binding: BindGroupReference,
    x: u32,
    y: u32,
    z: u32,
    workload_size: usize,
) -> QueueView {
    let set = queue.constants + constants;
    let number = position_of(queue.sets, set);
    QueueView {
        records: queue.records.push(
            MlQueueDispatch {
                x,
                y,
                z,
                pipeline: PipelineType(kernel, number as usize, inplaceable),
                bindgroup: DispatchedBindgroup::BindgroupReference(binding),
                pipeline_cached: None,
                meta: queue.current_meta,
                workload_size,
            },
        ),
        meta: queue.meta,
        constants: Seq::<(Constants, u32)>::empty(),
        sets: if number == queue.sets.len() {
            queue.sets.push(set)
        } else {
            queue.sets
        },
        current_meta: queue.current_meta,
    }
}

/// The queue with one more dispatch: its parameters `words` are written to the blob at
/// the next offset that is a multiple of `alignment_words`, and the dispatch is closed
/// and queued as [`closed`] says.
pub open spec fn dispatched(
    queue: QueueView,
    alignment_words: int,
    words: Seq<u32>,
    constants: Seq<(Constants, u32)>,
    kernel: Pipelines,
    inplaceable: OpIsInplaceable,
    binding: BindGroupReference,
    x: u32,
    y: u32,
    z: u32,
    workload_size: usize,
) -> QueueView {
    closed(
        begun(queue, alignment_words, words),
        constants,
        kernel,
        inplaceable,
        binding,
        x,
        y,
        z,
        workload_size,
    )
}

impl WgpuDevice {
    /// The queue of the device, as a value.
    pub open spec fn queue(&self) -> QueueView {
        QueueView {
            records: self.command_queue.records(),
            meta: self.command_queue.meta(),
            constants: self.command_queue.const_array.0@,
            sets: self.command_queue.const_id_map.sets(),
            current_meta: self.command_queue.current_meta,
        }
    }
}

/// Whether `after` is the device state `before` with one more dispatch queued, as
/// [`dispatched`] says, and nothing else changed.
pub open spec fn queued(
    before: WgpuDevice,
    after: WgpuDevice,
    words: Seq<u32>,
    constants: Seq<(Constants, u32)>,
    kernel: Pipelines,
    inplaceable: OpIsInplaceable,
    binding: BindGroupReference,
    x: u32,
    y: u32,
    z: u32,
    workload_size: usize,
) -> bool {
    &&& after.queue() == dispatched(
        before.queue(),
        before.device_limits.alignment_words(),
        words,
        constants,
        kernel,
        inplaceable,
        binding,
        x,
        y,
        z,
        workload_size,
    )
    &&& unchanged_but_queue(before, after)
}

/// Whether two device states differ in the queue at most.
pub open spec fn unchanged_but_queue(before: WgpuDevice, after: WgpuDevice) -> bool {
    &&& after.device_limits == before.device_limits
    &&& after.shader == before.shader
    &&& after.cache == before.cache
    &&& after.use_cache == before.use_cache
    &&& after.matmul_alg == before.matmul_alg
}

/// Whether a device state has room in its blob to begin the parameters of another
/// dispatch: the aligned offset can be counted in 32 bits.
pub open spec fn has_meta_room(dev: WgpuDevice) -> bool {
    has_room_for(dev, 1, 0)
}

/// Whether a device state has room in its blob for the parameters of `dispatches` more
/// dispatches with `words` words in all: every aligned offset can be counted in 32 bits.
pub open spec fn has_room_for(dev: WgpuDevice, dispatches: int, words: int) -> bool {
    dev.command_queue.meta().len() + dispatches * dev.device_limits.alignment_words() + words
        <= i32::MAX
}

/// A queue that binds known logical buffers still does so with one more dispatch that
/// binds known logical buffers.
pub proof fn lemma_buffers_known_push(
    records: Seq<MlQueueDispatch>,
    record: MlQueueDispatch,
    count: int,
)
    requires
        buffers_known(records, count),
        forall|k: int|
            0 <= k < record_buffers(record).len() ==> (#[trigger] record_buffers(record)[k])
                < count,
    ensures
        buffers_known(records.push(record), count),
{
    assert forall|i: int, b: usize| #[trigger] uses(records.push(record), i, b) implies b
        < count by {
        if i < records.len() {
            assert(records.push(record)[i] == records[i]);
            assert(uses(records, i, b));
        } else {
            assert(records.push(record)[i] == record);
            let k = choose|k: int|
                0 <= k < record_buffers(record).len() && record_buffers(record)[k] == b;
            assert(record_buffers(record)[k] < count);
        }
    }
}

/// Begins the parameters of a new dispatch: pads the blob with zero words up to the
/// alignment of the device and lets the parameters begin there.
pub fn get_meta(dev: &mut WgpuDevice)
    requires
        old(dev).wf(),
        has_meta_room(*old(dev)),
    ensures
        final(dev).wf(),
        final(dev).queue() == begun(
            old(dev).queue(),
            old(dev).device_limits.alignment_words(),
            Seq::<u32>::empty(),
        ),
        final(dev).command_queue.command_queue == old(dev).command_queue.command_queue,
        final(dev).command_queue.const_array == old(dev).command_queue.const_array,
        final(dev).command_queue.const_id_map == old(dev).command_queue.const_id_map,
        old(dev).command_queue.meta().len() <=
            final(dev).command_queue.meta().len() < old(dev).command_queue.meta().len()
                + old(dev).device_limits.alignment_words(),
        final(dev).command_queue.meta().len() == final(dev).command_queue.current_meta,
        unchanged_but_queue(*old(dev), *final(dev)),
{
    let alignment_words: u32 = dev.device_limits.min_storage_buffer_offset_alignment / 4;
    dev.command_queue.align_meta(alignment_words);
    assert(dev.command_queue.meta() =~= meta_with(
        old(dev).command_queue.meta(),
        next_divisible_spec(
            old(dev).command_queue.meta().len() as int,
            old(dev).device_limits.alignment_words(),
        ),
        Seq::<u32>::empty(),
    ));
}

/// Begins the parameters of a new dispatch and writes them: the blob is padded up to the
/// alignment of the device, and `words` are written behind.
pub fn begin_dispatch(dev: &mut WgpuDevice, words: &Vec<u32>)
    requires
        old(dev).wf(),
        has_meta_room(*old(dev)),
    ensures
        final(dev).wf(),
        final(dev).queue() == begun(
            old(dev).queue(),
            old(dev).device_limits.alignment_words(),
            words@,
        ),
        final(dev).command_queue.meta().len() < old(dev).command_queue.meta().len()
            + old(dev).device_limits.alignment_words() + words@.len(),
        unchanged_but_queue(*old(dev), *final(dev)),
{
    get_meta(dev);
    dev.command_queue.add_words(words);
    assert(dev.command_queue.meta() =~= meta_with(
        old(dev).command_queue.meta(),
        next_divisible_spec(
            old(dev).command_queue.meta().len() as int,
            old(dev).device_limits.alignment_words(),
        ),
        words@,
    ));
}

/// Queues the dispatch whose parameters were just written: closes its constant set,
/// with `const_vec` as the general-purpose constants, and puts the dispatch at the end of
/// the queue.
pub fn finish_dispatch(
    dev: &mut WgpuDevice,
    kernel: Pipelines,
    const_vec: Vec<u32>,
    inplaceable: OpIsInplaceable,
    bind_group: BindGroupReference,
    x: u32,
    y: u32,
    z: u32,
    workload_size: usize,
)
    requires
        old(dev).wf(),
        const_vec@.len() <= GENERAL_CONSTANTS,
        x <= MAX_DISPATCH_SIZE,
        y <= MAX_DISPATCH_SIZE,
        z <= MAX_DISPATCH_SIZE,
        forall|k: int|
            0 <= k < bind_group.buffers().len() ==>
                (#[trigger] bind_group.buffers()[k]) < old(dev).cache.references@.len(),
    ensures
        final(dev).wf(),
        final(dev).queue() == closed(
            old(dev).queue(),
            general_constants(const_vec@),
            kernel,
            inplaceable,
            bind_group,
            x,
            y,
            z,
            workload_size,
        ),
        unchanged_but_queue(*old(dev), *final(dev)),
{
    let ghost set = dev.command_queue.const_array.0@ + general_constants(const_vec@);
    proof {
        lemma_position_of(dev.command_queue.const_id_map.sets(), set);
    }
    let pipeline = dev.command_queue.get_pipeline_const_inplace(kernel, const_vec, inplaceable);
    let ghost before_records = dev.command_queue.records();
    enqueue_workgroups(&mut dev.command_queue, pipeline, bind_group, x, y, z, workload_size);
    proof {
        lemma_buffers_known_push(
            before_records,
            dev.command_queue.records()[before_records.len() as int],
            dev.cache.references@.len() as int,
        );
    }
}

/// The parameter offsets of queued dispatches never decrease in queue order, and each is
/// a multiple of the alignment of the device, counted in words.
pub proof fn lemma_offsets_aligned_in_order(dev: WgpuDevice, i: int, j: int)
    requires
        dev.wf(),
        0 <= i <= j < dev.command_queue.records().len(),
    ensures
        dev.command_queue.records()[i].meta <= dev.command_queue.records()[j].meta,
        dev.command_queue.records()[i].meta as int % (
        dev.device_limits.min_storage_buffer_offset_alignment as int / 4) == 0,
        dev.command_queue.records()[j].meta <= dev.command_queue.current_meta
            <= dev.command_queue.meta().len(),
{
}

} // verus!

