use gpu_dispatch::batch::materialize_binding;
use gpu_dispatch::batch::release_finished;
use gpu_dispatch::batch::resolve_dispatch;
use gpu_dispatch::bytes::words_to_bytes;
use gpu_dispatch::cache::ModelCache;
use gpu_dispatch::ceiling::prepare;
use gpu_dispatch::device::begin_dispatch;
use gpu_dispatch::device::finish_dispatch;
use gpu_dispatch::device::DeviceLimits;
use gpu_dispatch::device::WgpuDevice;
use gpu_dispatch::dtype::KernelDType;
use gpu_dispatch::flush::get_command_buffer;
use gpu_dispatch::flush::set_buffers;
use gpu_dispatch::kernels::Constants;
use gpu_dispatch::kernels::MatmulFunctions;
use gpu_dispatch::kernels::Pipelines;
use gpu_dispatch::kernels::UnaryFunctions;
use gpu_dispatch::layout::Layout;
use gpu_dispatch::liveness::use_ranges;
use gpu_dispatch::matmul::get_stride_from_back;
use gpu_dispatch::meta::extend_words;
use gpu_dispatch::pattern::copy_storages;
use gpu_dispatch::pool::CachedBuffer;
use gpu_dispatch::pool::StorageState;
use gpu_dispatch::queue::copy_constants;
use gpu_dispatch::queue::create_bind_group_input1;
use gpu_dispatch::queue::same_constants;
use gpu_dispatch::queue::BindGroupReferenceBase;
use gpu_dispatch::queue::DispatchedBindgroup;
use gpu_dispatch::queue::MlQueueDispatch;
use gpu_dispatch::queue::OpIsInplaceable;
use gpu_dispatch::queue::QueueBuffer;
use gpu_dispatch::storage::create_buffer_init;
use gpu_dispatch::storage::create_buffer_reference;
use gpu_dispatch::storage::hold_buffer;

fn strided() -> Pipelines {
    Pipelines::Unary(KernelDType::F32, UnaryFunctions::UnaryFromBuffer)
}

fn device() -> WgpuDevice {
    WgpuDevice::new(DeviceLimits { min_storage_buffer_offset_alignment: 256 }, 16)
}

fn queue_one(dev: &mut WgpuDevice, dest: usize, source: usize, word: u32) {
    begin_dispatch(dev, &vec![word]);
    finish_dispatch(
        dev,
        strided(),
        Vec::new(),
        OpIsInplaceable::new(),
        create_bind_group_input1(dest, source),
        1,
        1,
        1,
        64,
    );
}

/// A device with a chain of two dispatches: `a` to the temporary `b`, `b` to `c`.
fn chain() -> (WgpuDevice, usize, usize, usize) {
    let mut dev = device();
    let a = create_buffer_init(&mut dev, &[1, 2, 3, 4]).buffer;
    hold_buffer(&mut dev, a);
    let b = create_buffer_reference(&mut dev, 16);
    let c = create_buffer_reference(&mut dev, 16);
    hold_buffer(&mut dev, c);
    queue_one(&mut dev, b, a, 7);
    queue_one(&mut dev, c, b, 9);
    (dev, a, b, c)
}

#[test]
fn begin_and_finish_queue_one_record_at_an_aligned_offset() {
    let mut dev = device();
    let a = create_buffer_reference(&mut dev, 16);
    let b = create_buffer_reference(&mut dev, 16);
    dev.command_queue.add(5);
    queue_one(&mut dev, b, a, 7);
    let meta: &Vec<u32> = dev.command_queue.get_meta();
    assert_eq!(meta.len(), 65);
    assert_eq!(meta[0], 5);
    assert_eq!(meta[64], 7);
    assert!(meta[1..64].iter().all(|&w| w == 0));
    let records = &dev.command_queue.command_queue;
    assert_eq!(records.len(), 1);
    assert_eq!(records[0].meta, 64);
    assert_eq!((records[0].x, records[0].y, records[0].z), (1, 1, 1));
    assert_eq!(records[0].workload_size, 64);
    assert_eq!(records[0].pipeline.0, strided());
    assert_eq!(records[0].pipeline_cached, None);
    assert_eq!(
        records[0].bindgroup,
        DispatchedBindgroup::BindgroupReference(BindGroupReferenceBase::Bindgroup1(b, a))
    );
}

#[test]
fn align_meta_pads_to_the_next_multiple() {
    let mut queue = QueueBuffer::new();
    queue.align_meta(64);
    assert_eq!(queue.get_meta().len(), 0);
    queue.add(1);
    queue.align_meta(64);
    assert_eq!(queue.get_meta().len(), 64);
    queue.align_meta(64);
    assert_eq!(queue.get_meta().len(), 64);
    queue.add(2);
    queue.add(3);
    queue.align_meta(4);
    assert_eq!(queue.get_meta().len(), 68);
    assert_eq!(queue.get_meta()[64..], [2, 3, 0, 0]);
}

#[test]
fn prepare_sets_the_ceiling_from_the_high_water_mark() {
    let (mut dev, _, _, _) = chain();
    let records: Vec<MlQueueDispatch> = dev.command_queue.command_queue.clone();
    assert_eq!(dev.cache.buffers.max_memory_allowed, 0);
    prepare(&mut dev.cache, &records);
    // 16 bytes are in use; the chain adds two buffers of 16 bytes: 48 * 6 / 5 = 57.
    assert_eq!(dev.cache.buffers.max_memory_allowed, 57);
    assert!(dev.cache.mappings.current.is_some());
    assert!(dev.cache.mappings.current_storages.is_empty());
    assert_eq!(dev.cache.references.len(), 3);
    assert_eq!(dev.cache.buffers.buffers.len(), 1);
}

#[test]
fn materialize_and_release_move_storage_between_buffer_and_pool() {
    let mut cache = ModelCache::new(4);
    let a = cache.create_reference(32);
    let b = cache.create_reference(8);
    assert_eq!(cache.references[a].storage, None);
    let (storage, created) = cache.materialize(a);
    assert_eq!((storage, created), (0, true));
    assert_eq!(cache.references[a].storage, Some(0));
    assert_eq!(cache.buffers.buffers[0], CachedBuffer { size: 32, state: StorageState::InUse });
    assert_eq!(cache.materialize(a), (0, false));
    cache.release(a);
    assert_eq!(cache.references[a].storage, None);
    assert_eq!(cache.buffers.buffers[0].state, StorageState::Free);
    cache.release(a);
    assert_eq!(cache.buffers.buffers[0].state, StorageState::Free);
    // The smaller buffer takes the free storage: nothing new is made.
    assert_eq!(cache.materialize(b), (0, false));
    assert_eq!(cache.buffers.buffers.len(), 1);
    assert_eq!(cache.buffers.buffers[0], CachedBuffer { size: 32, state: StorageState::InUse });
    cache.set_referenced(b, true);
    assert!(cache.references[b].referenced_by_storage);
    cache.set_referenced(b, false);
    assert!(!cache.references[b].referenced_by_storage);
}

#[test]
fn materialize_preferring_takes_the_preferred_storage_only_where_it_fits() {
    let mut cache = ModelCache::new(4);
    let big = cache.create_reference(64);
    let small = cache.create_reference(16);
    let other = cache.create_reference(16);
    let next = cache.create_reference(16);
    let huge = cache.create_reference(128);
    cache.materialize(big);
    cache.materialize(small);
    cache.release(big);
    cache.release(small);
    // Storage 0 has 64 bytes and storage 1 has 16: the best fit for 16 bytes is 1, the
    // preferred one is taken all the same.
    assert_eq!(cache.materialize_preferring(other, Some(0)), (0, false));
    assert_eq!(cache.materialize_preferring(next, Some(0)), (1, false));
    cache.release(other);
    assert_eq!(cache.materialize_preferring(huge, Some(0)), (2, true));
    assert_eq!(cache.buffers.buffers[0].state, StorageState::Free);
    assert_eq!(cache.buffers.buffers[2], CachedBuffer { size: 128, state: StorageState::InUse });
    assert_eq!(cache.buffers.acquire_preferring(8, Some(7)), (0, false));
    assert_eq!(cache.buffers.acquire_preferring(8, None), (3, true));
}

#[test]
fn alias_hands_the_storage_of_the_source_to_the_destination() {
    let mut cache = ModelCache::new(4);
    let source = cache.create_reference(32);
    let dest = cache.create_reference(16);
    cache.materialize(source);
    cache.alias(dest, source);
    assert_eq!(cache.references[dest].storage, Some(0));
    assert_eq!(cache.references[source].storage, None);
    assert_eq!(cache.buffers.buffers[0], CachedBuffer { size: 32, state: StorageState::InUse });
}

#[test]
fn materialize_binding_gives_every_buffer_storage_in_order() {
    let mut cache = ModelCache::new(4);
    let a = cache.create_reference(32);
    let b = cache.create_reference(8);
    cache.materialize(a);
    let binding = create_bind_group_input1(b, a);
    let key = materialize_binding(&mut cache, &binding, None);
    assert_eq!(key, BindGroupReferenceBase::Bindgroup1(1, 0));
    assert_eq!(cache.references[a].storage, Some(0));
    assert_eq!(cache.references[b].storage, Some(1));
    assert_eq!(cache.buffers.buffers[1], CachedBuffer { size: 8, state: StorageState::InUse });
}

#[test]
fn release_finished_frees_what_was_last_used_here_and_is_not_held() {
    let mut cache = ModelCache::new(4);
    let held = cache.create_reference(32);
    let temporary = cache.create_reference(8);
    let later = cache.create_reference(8);
    cache.set_referenced(held, true);
    cache.materialize(held);
    cache.materialize(temporary);
    cache.materialize(later);
    let last: Vec<usize> = vec![3, 3, 5];
    release_finished(&mut cache, &BindGroupReferenceBase::Bindgroup2(later, held, temporary), 3, &last);
    assert_eq!(cache.references[held].storage, Some(0));
    assert_eq!(cache.references[temporary].storage, None);
    assert_eq!(cache.references[later].storage, Some(2));
    assert_eq!(cache.buffers.buffers[1].state, StorageState::Free);
    assert_eq!(cache.buffers.buffers[2].state, StorageState::InUse);
}

#[test]
fn resolve_dispatch_resolves_one_record() {
    let (mut dev, a, b, c) = chain();
    let records: Vec<MlQueueDispatch> = dev.command_queue.command_queue.clone();
    let (_first, last) = use_ranges(&records, dev.cache.references.len());
    assert_eq!(last, vec![0, 1, 1]);
    prepare(&mut dev.cache, &records);
    let mut dropped: Vec<usize> = Vec::new();
    let (record, pressure, in_place) =
        resolve_dispatch(&mut dev.cache, &mut dev.shader, &records, 0, &last, &mut dropped);
    assert!(!pressure);
    assert!(!in_place);
    assert!(dropped.is_empty());
    assert_eq!(record.pipeline.0, strided());
    assert_eq!(record.pipeline_cached, Some(0));
    assert_eq!(record.bindgroup, DispatchedBindgroup::CachedBindgroup(0));
    assert_eq!((record.x, record.meta, record.workload_size), (1, 0, 64));
    assert_eq!(dev.cache.bindgroups.len(), 1);
    assert_eq!(dev.cache.bindgroups[0].key, BindGroupReferenceBase::Bindgroup1(1, 0));
    // `a` is held by a tensor and keeps its storage; `b` is used again by the next record.
    assert_eq!(dev.cache.references[a].storage, Some(0));
    assert_eq!(dev.cache.references[b].storage, Some(1));
    assert_eq!(dev.cache.references[c].storage, None);
    assert_eq!(dev.shader.pipelines.len(), 1);
    assert_eq!(dev.shader.shaders.len(), 1);
}

#[test]
fn set_buffers_resolves_a_window_and_the_plan_is_read_from_it() {
    let (mut dev, a, b, c) = chain();
    let mut queue: Vec<MlQueueDispatch> = dev.command_queue.command_queue.clone();
    let (_first, last) = use_ranges(&queue, dev.cache.references.len());
    prepare(&mut dev.cache, &queue);
    let mut dropped: Vec<usize> = Vec::new();
    let mut index: usize = 0;
    let pressure =
        set_buffers(&mut dev.cache, &mut dev.shader, &mut queue, &mut index, &last, &mut dropped);
    assert!(!pressure);
    assert_eq!(index, 2);
    assert!(dropped.is_empty());
    assert_eq!(queue[0].bindgroup, DispatchedBindgroup::CachedBindgroup(0));
    assert_eq!(queue[1].bindgroup, DispatchedBindgroup::CachedBindgroup(1));
    assert_eq!(queue[0].pipeline_cached, Some(0));
    assert_eq!(queue[1].pipeline_cached, Some(0));
    assert_eq!(dev.cache.bindgroups[1].key, BindGroupReferenceBase::Bindgroup1(2, 1));
    // The temporary gave its storage back after its last use.
    assert_eq!(dev.cache.references[a].storage, Some(0));
    assert_eq!(dev.cache.references[b].storage, None);
    assert_eq!(dev.cache.references[c].storage, Some(2));
    assert_eq!(dev.cache.buffers.buffers[1].state, StorageState::Free);

    let meta: Vec<u32> = dev.command_queue.get_meta().clone();
    let plan = get_command_buffer(&dev.cache, &dev.shader, &meta, &queue, 0, 2, false);
    assert_eq!((plan.start, plan.end), (0, 2));
    assert!(!plan.closed_by_cache);
    assert_eq!(plan.storage_count, 3);
    assert_eq!(plan.bindgroup_count, 2);
    assert_eq!(plan.pipeline_count, 1);
    assert_eq!(plan.shader_count, 1);
    assert_eq!(plan.dispatches.len(), 2);
    assert_eq!(plan.dispatches[0].dynamic_offset, 0);
    assert_eq!(plan.dispatches[1].dynamic_offset, 256);
    assert_eq!(plan.dispatches[0].bindgroup, 0);
    assert_eq!(plan.dispatches[1].bindgroup, 1);
    assert_eq!(plan.meta, words_to_bytes(&meta[0..65]));
    assert_eq!(plan.meta.len(), 260);

    let tail = get_command_buffer(&dev.cache, &dev.shader, &meta, &queue, 1, 2, true);
    assert_eq!((tail.start, tail.end), (1, 2));
    assert!(tail.closed_by_cache);
    assert_eq!(tail.dispatches.len(), 1);
    assert_eq!(tail.dispatches[0].dynamic_offset, 0);
    assert_eq!(tail.meta, words_to_bytes(&[9]));
}

#[test]
fn strides_are_read_from_the_back() {
    let stride: Vec<usize> = vec![12, 4, 1];
    assert_eq!(get_stride_from_back(&stride, 0), 1);
    assert_eq!(get_stride_from_back(&stride, 1), 4);
    assert_eq!(get_stride_from_back(&stride, 2), 12);
    assert_eq!(get_stride_from_back(&stride, 3), 1);
    assert_eq!(get_stride_from_back(&Vec::new(), 0), 1);
    let layout = Layout::contiguous(vec![2, 3, 4]);
    assert_eq!(layout.dims(), &vec![2, 3, 4]);
    assert_eq!(get_stride_from_back(layout.stride(), 1), 4);
}

#[test]
fn extend_words_appends_each_value_as_a_word() {
    let mut words: Vec<u32> = vec![1];
    extend_words(&mut words, &vec![2, 3, (1usize << 32) + 5]);
    assert_eq!(words, vec![1, 2, 3, 5]);
    extend_words(&mut words, &Vec::new());
    assert_eq!(words, vec![1, 2, 3, 5]);
}

#[test]
fn copies_are_equal_to_what_they_copy() {
    let storages: Vec<Option<usize>> = vec![Some(3), None, Some(0)];
    assert_eq!(copy_storages(&storages), storages);
    assert_eq!(copy_storages(&Vec::new()), Vec::<Option<usize>>::new());
    let constants: Vec<(Constants, u32)> = vec![(Constants::Constv0, 4), (Constants::ConstDims1, 1)];
    let copy = copy_constants(&constants);
    assert_eq!(copy, constants);
    assert!(same_constants(&copy, &constants));
    assert!(!same_constants(&copy, &vec![(Constants::Constv0, 4)]));
    assert!(!same_constants(&copy, &vec![(Constants::Constv0, 4), (Constants::ConstDims1, 0)]));
    assert!(!same_constants(&copy, &vec![(Constants::ConstDims1, 1), (Constants::Constv0, 4)]));
    assert!(same_constants(&Vec::new(), &Vec::new()));
}

#[test]
fn kernels_are_numbered_within_their_family() {
    assert_eq!(KernelDType::F32.get_code(), 0);
    assert_eq!(KernelDType::U32.get_code(), 1);
    assert_eq!(KernelDType::U8.get_code(), 2);
    assert_eq!(MatmulFunctions::Matmul1.get_code(), 0);
    assert_eq!(MatmulFunctions::Matmul1End.get_code(), 1);
    let first = Pipelines::Matmul(KernelDType::F32, MatmulFunctions::Matmul1).get_codes();
    let second = Pipelines::Matmul(KernelDType::U32, MatmulFunctions::Matmul1End).get_codes();
    assert_eq!(first.0, second.0);
    assert_eq!((first.1, first.2), (0, 0));
    assert_eq!((second.1, second.2), (1, 1));
    let unary = Pipelines::Unary(KernelDType::F32, UnaryFunctions::UnaryInplaceContiguous);
    assert_ne!(unary.get_codes().0, first.0);
}
