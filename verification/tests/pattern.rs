use gpu_dispatch::device::get_meta;
use gpu_dispatch::device::DeviceLimits;
use gpu_dispatch::device::WgpuDevice;
use gpu_dispatch::dtype::KernelDType;
use gpu_dispatch::flush::flush_gpu_command;
use gpu_dispatch::kernels::MatmulFunctions;
use gpu_dispatch::kernels::Pipelines;
use gpu_dispatch::kernels::UnaryFunctions;
use gpu_dispatch::pattern::get_pipeline_bytes;
use gpu_dispatch::pattern::pattern_hash;
use gpu_dispatch::pattern::BufferMappingCache;
use gpu_dispatch::pattern::MAX_BUFFER_MAPPINGS;
use gpu_dispatch::queue::create_bind_group_input1;
use gpu_dispatch::queue::enqueue_workgroups;
use gpu_dispatch::queue::BindGroupReferenceBase;
use gpu_dispatch::queue::DispatchedBindgroup;
use gpu_dispatch::queue::MlQueueDispatch;
use gpu_dispatch::queue::OpIsInplaceable;
use gpu_dispatch::queue::PipelineType;
use gpu_dispatch::storage::create_buffer_reference;
use gpu_dispatch::storage::create_buffer_init;
use gpu_dispatch::storage::drop_buffer;
use gpu_dispatch::storage::hold_buffer;

fn record(pipeline: PipelineType, dest: usize, source: usize, x: u32) -> MlQueueDispatch {
    MlQueueDispatch {
        x,
        y: 1,
        z: 1,
        pipeline,
        bindgroup: DispatchedBindgroup::BindgroupReference(create_bind_group_input1(dest, source)),
        pipeline_cached: None,
        meta: 0,
        workload_size: x as usize,
    }
}

fn strided() -> Pipelines {
    Pipelines::Unary(KernelDType::F32, UnaryFunctions::UnaryFromBuffer)
}

#[test]
fn pipeline_identities_have_their_bytes() {
    let plain = PipelineType(
        Pipelines::Upsample(KernelDType::F32, gpu_dispatch::kernels::UpsampleFunctions::Upsample1d),
        0,
        OpIsInplaceable::new(),
    );
    assert_eq!(get_pipeline_bytes(&plain), vec![0, 0, 0, 0, 0, 0, 0, 0, 0, 0, 0, 0]);
    let matmul = PipelineType(
        Pipelines::Matmul(KernelDType::U32, MatmulFunctions::Matmul7),
        0x0102,
        OpIsInplaceable { input1_inplaceable: false, input2_inplaceable: true },
    );
    assert_eq!(get_pipeline_bytes(&matmul), vec![10, 1, 2, 2, 1, 0, 0, 0, 0, 0, 0, 2]);
}

#[test]
fn the_hash_of_a_batch_depends_on_its_pipelines_only() {
    let a = PipelineType(strided(), 0, OpIsInplaceable::new());
    let b = PipelineType(Pipelines::Matmul(KernelDType::F32, MatmulFunctions::Matmul7), 3, OpIsInplaceable::new());
    let first = vec![record(a, 0, 1, 1), record(b, 2, 0, 5)];
    let same_pipelines = vec![record(a, 7, 8, 2), record(b, 9, 7, 1)];
    let reversed = vec![record(b, 2, 0, 5), record(a, 0, 1, 1)];
    let shorter = vec![record(a, 0, 1, 1)];
    let other_constants = vec![
        record(a, 0, 1, 1),
        record(PipelineType(b.0, 4, b.2), 2, 0, 5),
    ];
    assert_eq!(pattern_hash(&first), pattern_hash(&same_pipelines));
    assert_eq!(pattern_hash(&first), pattern_hash(&first));
    assert_ne!(pattern_hash(&first), pattern_hash(&reversed));
    assert_ne!(pattern_hash(&first), pattern_hash(&shorter));
    assert_ne!(pattern_hash(&first), pattern_hash(&other_constants));
    assert_ne!(pattern_hash(&shorter), pattern_hash(&vec![]));
}

#[test]
fn the_mapping_cache_remembers_where_buffers_lived() {
    let mut mappings = BufferMappingCache::new();
    assert_eq!(mappings.preferred(0), None);
    mappings.set_current_buffer_mapping(11);
    assert_eq!(mappings.current, Some(0));
    assert_eq!(mappings.preferred(0), None);
    mappings.note(2, 7);
    mappings.note(0, 5);
    assert_eq!(mappings.current_storages, vec![Some(5), None, Some(7)]);
    assert_eq!(mappings.preferred(2), Some(7));
    assert_eq!(mappings.preferred(1), None);
    assert_eq!(mappings.preferred(3), None);
    mappings.finish();
    assert_eq!(mappings.current, None);
    assert_eq!(mappings.preferred(2), None);
    mappings.set_current_buffer_mapping(22);
    assert_eq!(mappings.current, Some(1));
    assert_eq!(mappings.preferred(0), None);
    mappings.note(0, 9);
    mappings.finish();
    mappings.set_current_buffer_mapping(11);
    assert_eq!(mappings.current, Some(0));
    assert_eq!(mappings.preferred(0), Some(5));
    assert_eq!(mappings.preferred(2), Some(7));
    mappings.note(2, 8);
    mappings.finish();
    assert_eq!(mappings.patterns[0].storages, vec![Some(5), None, Some(8)]);
    assert_eq!(mappings.patterns[1].storages, vec![Some(9)]);
}

#[test]
fn too_many_patterns_are_forgotten_together() {
    let mut mappings = BufferMappingCache::new();
    for hash in 0..MAX_BUFFER_MAPPINGS as u64 {
        mappings.set_current_buffer_mapping(hash);
        mappings.note(0, hash as usize);
        mappings.finish();
    }
    assert_eq!(mappings.patterns.len(), MAX_BUFFER_MAPPINGS);
    mappings.set_current_buffer_mapping(3);
    assert_eq!(mappings.current, Some(3));
    assert_eq!(mappings.preferred(0), Some(3));
    mappings.finish();
    mappings.set_current_buffer_mapping(1000);
    assert_eq!(mappings.patterns.len(), 1);
    assert_eq!(mappings.current, Some(0));
    assert_eq!(mappings.patterns[0].hash, 1000);
    mappings.finish();
    mappings.set_current_buffer_mapping(3);
    assert_eq!(mappings.current, Some(1));
    assert_eq!(mappings.preferred(0), None);
}

fn queue_strided(dev: &mut WgpuDevice, dest: usize, source: usize) {
    get_meta(dev);
    dev.command_queue.add(4);
    let pipeline = dev.command_queue.get_pipeline(strided());
    enqueue_workgroups(
        &mut dev.command_queue,
        pipeline,
        create_bind_group_input1(dest, source),
        1,
        1,
        1,
        4,
    );
}

#[test]
fn a_repeated_batch_finds_its_storage_again() {
    let mut dev =
        WgpuDevice::new(DeviceLimits { min_storage_buffer_offset_alignment: 256 }, 64);
    let other = create_buffer_init(&mut dev, &[0; 8]);
    let input = create_buffer_init(&mut dev, &[0; 8]);
    hold_buffer(&mut dev, other.buffer);
    hold_buffer(&mut dev, input.buffer);
    assert_eq!((other.storage, input.storage), (0, 1));
    let t = create_buffer_reference(&mut dev, 32);
    let out = create_buffer_reference(&mut dev, 32);
    hold_buffer(&mut dev, out);
    queue_strided(&mut dev, t, input.buffer);
    queue_strided(&mut dev, out, t);
    let first = flush_gpu_command(&mut dev);
    let keys: Vec<_> = first.command_buffers[0]
        .dispatches
        .iter()
        .map(|d| dev.cache.bindgroups[d.bindgroup].key)
        .collect();
    assert_eq!(
        keys,
        vec![BindGroupReferenceBase::Bindgroup1(2, 1), BindGroupReferenceBase::Bindgroup1(3, 2)]
    );
    assert_eq!(dev.cache.mappings.patterns.len(), 1);
    assert_eq!(dev.cache.mappings.patterns[0].storages, vec![Some(2), Some(3)]);
    // Another buffer of the same size becomes free, with a lower number.
    drop_buffer(&mut dev, other.buffer);
    let t2 = create_buffer_reference(&mut dev, 32);
    let out2 = create_buffer_reference(&mut dev, 32);
    hold_buffer(&mut dev, out2);
    queue_strided(&mut dev, t2, input.buffer);
    queue_strided(&mut dev, out2, t2);
    let second = flush_gpu_command(&mut dev);
    let dispatches = &second.command_buffers[0].dispatches;
    let keys: Vec<_> = dispatches.iter().map(|d| dev.cache.bindgroups[d.bindgroup].key).collect();
    // The temporary lives where it lived the last time, though storage 0 would be the
    // best fit; the result cannot, since the earlier result is still there.
    assert_eq!(
        keys,
        vec![BindGroupReferenceBase::Bindgroup1(2, 1), BindGroupReferenceBase::Bindgroup1(0, 2)]
    );
    assert_eq!(dispatches[0].bindgroup, first.command_buffers[0].dispatches[0].bindgroup);
    assert_eq!(dev.cache.mappings.patterns.len(), 1);
    assert_eq!(dev.cache.mappings.patterns[0].storages, vec![Some(2), Some(0)]);
    assert_eq!(dev.cache.mappings.current, None);
    // A batch of another pattern is remembered by itself.
    queue_strided(&mut dev, out2, input.buffer);
    let _ = flush_gpu_command(&mut dev);
    assert_eq!(dev.cache.mappings.patterns.len(), 2);
}

#[test]
fn a_flush_remembers_the_storages_with_the_pattern_of_the_batch() {
    let mut dev = WgpuDevice::new(DeviceLimits { min_storage_buffer_offset_alignment: 256 }, 16);
    let a = create_buffer_init(&mut dev, &[1, 2, 3, 4]).buffer;
    hold_buffer(&mut dev, a);
    let b = create_buffer_reference(&mut dev, 16);
    hold_buffer(&mut dev, b);
    get_meta(&mut dev);
    dev.command_queue.add(4);
    let kernel = Pipelines::Unary(KernelDType::F32, UnaryFunctions::UnaryFromBuffer);
    let pipeline = dev.command_queue.get_pipeline(kernel);
    enqueue_workgroups(&mut dev.command_queue, pipeline, create_bind_group_input1(b, a), 1, 1, 1, 4);
    let records = dev.command_queue.command_queue.clone();
    let hash = pattern_hash(&records);
    flush_gpu_command(&mut dev);
    assert_eq!(dev.cache.mappings.current, None);
    assert!(dev.cache.mappings.current_storages.is_empty());
    assert_eq!(dev.cache.mappings.patterns.len(), 1);
    assert_eq!(dev.cache.mappings.patterns[0].hash, hash);
    // The destination, bound first, took storage buffer 1.
    assert_eq!(dev.cache.mappings.patterns[0].storages, vec![Some(1)]);
}
