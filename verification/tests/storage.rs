use gpu_dispatch::bindgroup::create_bindgroup;
use gpu_dispatch::bindgroup::BindGroupEntry;
use gpu_dispatch::bindgroup::BindingResource;
use gpu_dispatch::buffer::BufferReference;
use gpu_dispatch::cache::ModelCache;
use gpu_dispatch::device::get_meta;
use gpu_dispatch::device::DeviceLimits;
use gpu_dispatch::device::MatmulAlgorithm;
use gpu_dispatch::device::WgpuDevice;
use gpu_dispatch::dtype::DType;
use gpu_dispatch::dtype::KernelDType;
use gpu_dispatch::dtype::WebGpuError;
use gpu_dispatch::kernels::MatmulFunctions;
use gpu_dispatch::kernels::Pipelines;
use gpu_dispatch::kernels::Shaders;
use gpu_dispatch::kernels::UnaryFunctions;
use gpu_dispatch::pipeline::PipelineLookup;
use gpu_dispatch::pipeline::ShaderModuleComputePipelines;
use gpu_dispatch::pool::BufferCache;
use gpu_dispatch::pool::CachedBuffer;
use gpu_dispatch::pool::StorageState;
use gpu_dispatch::queue::create_bind_group_input1;
use gpu_dispatch::queue::enqueue_workgroups;
use gpu_dispatch::queue::BindGroupReferenceBase;
use gpu_dispatch::queue::OpIsInplaceable;
use gpu_dispatch::queue::PipelineType;
use gpu_dispatch::storage::alloc_uninit;
use gpu_dispatch::storage::create_buffer_reference;
use gpu_dispatch::storage::create_buffer_init;
use gpu_dispatch::storage::drop_buffer;
use gpu_dispatch::storage::hold_buffer;
use gpu_dispatch::storage::is_queued;
use gpu_dispatch::storage::read_data_from_gpu;
use gpu_dispatch::storage::storage_from_slice;
use gpu_dispatch::storage::synchronize;

fn device() -> WgpuDevice {
    WgpuDevice::new(DeviceLimits { min_storage_buffer_offset_alignment: 256 }, 32)
}

fn queue_strided(dev: &mut WgpuDevice, dest: usize, source: usize) {
    get_meta(dev);
    dev.command_queue.add(4);
    let pipeline = dev
        .command_queue
        .get_pipeline(Pipelines::Unary(KernelDType::F32, UnaryFunctions::UnaryFromBuffer));
    enqueue_workgroups(
        &mut dev.command_queue,
        pipeline,
        create_bind_group_input1(dest, source),
        1,
        1,
        1,
        4,
    );
}

#[test]
fn a_new_device_is_empty() {
    let dev = device();
    assert!(dev.command_queue.command_queue.is_empty());
    assert!(dev.cache.references.is_empty());
    assert!(dev.cache.buffers.buffers.is_empty());
    assert!(dev.cache.bindgroups.is_empty());
    assert_eq!(dev.cache.max_bindgroups, 32);
    assert!(dev.use_cache);
    assert_eq!(dev.matmul_alg, MatmulAlgorithm::Matmul7);
    assert_eq!(dev.device_limits.min_storage_buffer_offset_alignment, 256);
}

#[test]
fn create_buffer_makes_a_buffer_without_storage() {
    let mut dev = device();
    assert_eq!(create_buffer_reference(&mut dev, 12), 0);
    assert_eq!(create_buffer_reference(&mut dev, 40), 1);
    assert_eq!(
        dev.cache.references,
        vec![
            BufferReference { size: 12, storage: None, referenced_by_storage: false },
            BufferReference { size: 40, storage: None, referenced_by_storage: false }
        ]
    );
    assert!(dev.cache.buffers.buffers.is_empty());
}

#[test]
fn create_buffer_init_gives_storage_and_bytes() {
    let mut dev = device();
    let init = create_buffer_init(&mut dev, &[1, 2, 3]);
    assert_eq!(init.buffer, 0);
    assert_eq!(init.storage, 0);
    assert!(init.created);
    let mut expected = Vec::new();
    for word in [1u32, 2, 3] {
        expected.extend_from_slice(&word.to_ne_bytes());
    }
    assert_eq!(init.data, expected);
    assert_eq!(
        dev.cache.references[0],
        BufferReference { size: 12, storage: Some(0), referenced_by_storage: false }
    );
    assert_eq!(
        dev.cache.buffers.buffers,
        vec![CachedBuffer { size: 12, state: StorageState::InUse }]
    );
}

#[test]
fn create_buffer_init_takes_the_best_fit_from_the_pool() {
    let mut dev = device();
    let large = create_buffer_init(&mut dev, &[0; 10]);
    let small = create_buffer_init(&mut dev, &[0; 4]);
    let medium = create_buffer_init(&mut dev, &[0; 6]);
    for init in [&large, &small, &medium] {
        drop_buffer(&mut dev, init.buffer);
    }
    assert!(dev.cache.buffers.buffers.iter().all(|b| b.state == StorageState::Free));
    // 20 bytes fit into the buffers of 40 and of 24 bytes; the smaller one is taken.
    let next = create_buffer_init(&mut dev, &[0; 5]);
    assert_eq!((next.storage, next.created), (2, false));
    // 16 bytes fit exactly into the buffer of 16 bytes.
    let exact = create_buffer_init(&mut dev, &[0; 4]);
    assert_eq!((exact.storage, exact.created), (1, false));
    // 44 bytes fit nowhere.
    let new = create_buffer_init(&mut dev, &[0; 11]);
    assert_eq!((new.storage, new.created), (3, true));
    assert_eq!(dev.cache.buffers.memory_allocated(), 40 + 16 + 24 + 44);
    assert_eq!(dev.cache.buffers.memory_in_use(), 24 + 16 + 44);
}

#[test]
fn alloc_uninit_takes_four_byte_types_only() {
    let mut dev = device();
    assert_eq!(alloc_uninit(&mut dev, 10, DType::F32), Ok(0));
    assert_eq!(alloc_uninit(&mut dev, 3, DType::U32), Ok(1));
    assert_eq!(
        alloc_uninit(&mut dev, 3, DType::U8),
        Err(WebGpuError::UnsupportedDType(DType::U8))
    );
    assert_eq!(
        alloc_uninit(&mut dev, 3, DType::F64),
        Err(WebGpuError::UnsupportedDType(DType::F64))
    );
    assert_eq!(dev.cache.references.len(), 2);
    assert_eq!(dev.cache.references[0].size, 40);
    assert_eq!(dev.cache.references[1].size, 12);
}

#[test]
fn dropping_a_buffer_frees_its_storage_unless_it_is_queued() {
    let mut dev = device();
    let a = create_buffer_init(&mut dev, &[1, 2]);
    let b = create_buffer_init(&mut dev, &[3, 4]);
    let c = create_buffer_reference(&mut dev, 8);
    hold_buffer(&mut dev, a.buffer);
    hold_buffer(&mut dev, b.buffer);
    hold_buffer(&mut dev, c);
    assert!(dev.cache.references[a.buffer].referenced_by_storage);
    queue_strided(&mut dev, c, a.buffer);
    assert!(is_queued(&dev.command_queue.command_queue, a.buffer));
    assert!(is_queued(&dev.command_queue.command_queue, c));
    assert!(!is_queued(&dev.command_queue.command_queue, b.buffer));
    drop_buffer(&mut dev, a.buffer);
    drop_buffer(&mut dev, b.buffer);
    // a is still needed by the queued dispatch; b is not.
    assert_eq!(
        dev.cache.references[a.buffer],
        BufferReference { size: 8, storage: Some(0), referenced_by_storage: false }
    );
    assert_eq!(
        dev.cache.references[b.buffer],
        BufferReference { size: 8, storage: None, referenced_by_storage: false }
    );
    assert_eq!(dev.cache.buffers.buffers[0].state, StorageState::InUse);
    assert_eq!(dev.cache.buffers.buffers[1].state, StorageState::Free);
    // The flush gives c the free storage and frees a after its last use.
    let plan = synchronize(&mut dev).expect("something was queued");
    assert_eq!(plan.command_buffers.len(), 1);
    assert_eq!(dev.cache.references[c].storage, Some(1));
    assert_eq!(dev.cache.references[a.buffer].storage, None);
    assert_eq!(dev.cache.buffers.buffers[0].state, StorageState::Free);
}

#[test]
fn synchronize_has_nothing_to_do_for_an_empty_queue() {
    let mut dev = device();
    assert!(synchronize(&mut dev).is_none());
    let a = create_buffer_init(&mut dev, &[1]);
    let b = create_buffer_reference(&mut dev, 4);
    hold_buffer(&mut dev, a.buffer);
    hold_buffer(&mut dev, b);
    queue_strided(&mut dev, b, a.buffer);
    assert!(synchronize(&mut dev).is_some());
    assert!(synchronize(&mut dev).is_none());
}

#[test]
fn readback_flushes_first_and_names_the_storage() {
    let mut dev = device();
    let a = create_buffer_init(&mut dev, &[1, 2, 3]);
    let b = create_buffer_reference(&mut dev, 12);
    let never = create_buffer_reference(&mut dev, 12);
    hold_buffer(&mut dev, a.buffer);
    hold_buffer(&mut dev, b);
    hold_buffer(&mut dev, never);
    queue_strided(&mut dev, b, a.buffer);
    let plan = read_data_from_gpu(&mut dev, b);
    assert_eq!(plan.flush.command_buffers.len(), 1);
    assert_eq!(plan.source, Some(1));
    assert_eq!(plan.size, 12);
    assert!(dev.command_queue.command_queue.is_empty());
    let again = read_data_from_gpu(&mut dev, a.buffer);
    assert!(again.flush.command_buffers.is_empty());
    assert_eq!((again.source, again.size), (Some(0), 12));
    let nothing = read_data_from_gpu(&mut dev, never);
    assert_eq!(nothing.source, None);
}

#[test]
fn clear_cache_drops_what_is_not_in_use() {
    let mut dev = device();
    let a = create_buffer_init(&mut dev, &[1]);
    let b = create_buffer_reference(&mut dev, 4);
    let t = create_buffer_reference(&mut dev, 4);
    hold_buffer(&mut dev, a.buffer);
    hold_buffer(&mut dev, b);
    queue_strided(&mut dev, t, a.buffer);
    queue_strided(&mut dev, b, t);
    let _ = synchronize(&mut dev);
    assert_eq!(dev.cache.count_bind_groups(), 2);
    assert_eq!(dev.cache.buffers.buffers[1].state, StorageState::Free);
    let (bindgroups, buffers) = dev.clear_cache();
    assert_eq!(bindgroups, vec![0, 1]);
    assert_eq!(buffers, vec![1]);
    assert_eq!(dev.cache.count_bind_groups(), 0);
    assert_eq!(
        dev.cache.buffers.buffers,
        vec![
            CachedBuffer { size: 4, state: StorageState::InUse },
            CachedBuffer { size: 4, state: StorageState::Deleted },
            CachedBuffer { size: 4, state: StorageState::InUse }
        ]
    );
    assert_eq!(dev.cache.references[a.buffer].storage, Some(0));
    assert_eq!(dev.cache.references[b].storage, Some(2));
    // A deleted storage buffer is never handed out again.
    let c = create_buffer_init(&mut dev, &[9]);
    assert_eq!((c.storage, c.created), (3, true));
}

#[test]
fn binding_objects_put_the_parameters_at_binding_one() {
    let storage = |binding: u32, id: usize| BindGroupEntry {
        binding,
        resource: BindingResource::Storage(id),
    };
    let meta = BindGroupEntry { binding: 1, resource: BindingResource::Meta { offset: 0, size: 256 } };
    let none = create_bindgroup(BindGroupReferenceBase::Bindgroup0(7));
    assert_eq!(none.layout, 0);
    assert_eq!(none.entries, vec![storage(0, 7), meta]);
    let one = create_bindgroup(BindGroupReferenceBase::Bindgroup1(7, 8));
    assert_eq!(one.layout, 1);
    assert_eq!(one.entries, vec![storage(0, 7), meta, storage(2, 8)]);
    let two = create_bindgroup(BindGroupReferenceBase::Bindgroup2(7, 8, 9));
    assert_eq!(two.layout, 2);
    assert_eq!(two.entries, vec![storage(0, 7), meta, storage(2, 8), storage(3, 9)]);
    let three = create_bindgroup(BindGroupReferenceBase::Bindgroup3(7, 8, 9, 7));
    assert_eq!(three.layout, 3);
    assert_eq!(
        three.entries,
        vec![storage(0, 7), meta, storage(2, 8), storage(3, 9), storage(4, 7)]
    );
}

#[test]
fn equal_pipeline_identities_give_the_same_pipeline() {
    let mut cache = ShaderModuleComputePipelines::new();
    let flags = OpIsInplaceable::new();
    let matmul1 = PipelineType(Pipelines::Matmul(KernelDType::F32, MatmulFunctions::Matmul1), 0, flags);
    let matmul7 = PipelineType(Pipelines::Matmul(KernelDType::F32, MatmulFunctions::Matmul7), 0, flags);
    let other_constants =
        PipelineType(Pipelines::Matmul(KernelDType::F32, MatmulFunctions::Matmul7), 1, flags);
    let unary = PipelineType(
        Pipelines::Unary(KernelDType::U32, UnaryFunctions::UnaryInplace),
        0,
        OpIsInplaceable { input1_inplaceable: true, input2_inplaceable: false },
    );
    assert_eq!(
        cache.get_pipeline(&matmul1),
        PipelineLookup { id: 0, created: true, module_created: true }
    );
    assert_eq!(
        cache.get_pipeline(&matmul7),
        PipelineLookup { id: 1, created: true, module_created: false }
    );
    assert_eq!(
        cache.get_pipeline(&matmul1),
        PipelineLookup { id: 0, created: false, module_created: false }
    );
    assert_eq!(
        cache.get_pipeline(&other_constants),
        PipelineLookup { id: 2, created: true, module_created: false }
    );
    assert_eq!(
        cache.get_pipeline(&unary),
        PipelineLookup { id: 3, created: true, module_created: true }
    );
    assert_eq!(cache.get_pipeline(&unary).id, 3);
    assert_eq!(cache.shaders, vec![Shaders::Matmul(KernelDType::F32), Shaders::Unary(KernelDType::U32)]);
    assert_eq!(cache.pipelines[3].module, 1);
    assert_eq!(cache.get_shader_module(Shaders::Unary(KernelDType::U32)), (1, false));
    assert_eq!(cache.get_shader_module(Shaders::Copy(KernelDType::U32)), (2, true));
}

#[test]
fn the_pool_reclaims_in_the_order_of_the_numbers() {
    let mut pool = BufferCache::new();
    let a = pool.acquire(100);
    let b = pool.acquire(50);
    let c = pool.acquire(70);
    assert_eq!((a, b, c), ((0, true), (1, true), (2, true)));
    pool.free(0);
    pool.free(2);
    pool.max_memory_allowed = 130;
    // 220 bytes are held: the first free buffer goes, and with 120 bytes left the
    // second one stays.
    assert_eq!(pool.remove_unused(), vec![0]);
    assert_eq!(pool.memory_allocated(), 120);
    pool.max_memory_allowed = 60;
    assert_eq!(pool.remove_unused(), vec![2]);
    // What is in use stays, whatever the ceiling.
    pool.max_memory_allowed = 0;
    assert_eq!(pool.remove_unused(), Vec::<usize>::new());
    assert_eq!(pool.memory_in_use(), 50);
    assert_eq!(pool.acquire(10), (3, true));
}

#[test]
fn the_binding_cache_finds_keys_again_and_drops_dead_ones() {
    let mut cache = ModelCache::new(2);
    let a = cache.create_reference_init(8);
    let b = cache.create_reference_init(8);
    assert_eq!((a, b), ((0, 0, true), (1, 1, true)));
    let key = BindGroupReferenceBase::Bindgroup1(0, 1);
    let other = BindGroupReferenceBase::Bindgroup1(1, 0);
    assert_eq!(cache.get_bind_group(key), (0, true));
    assert_eq!(cache.get_bind_group(other), (1, true));
    assert_eq!(cache.get_bind_group(key), (0, false));
    assert_eq!(cache.remove_unused(), (false, vec![]));
    assert_eq!(cache.get_bind_group(BindGroupReferenceBase::Bindgroup0(0)), (2, true));
    assert_eq!(cache.remove_unused(), (true, vec![0, 1, 2]));
    assert_eq!(cache.get_bind_group(key), (3, true));
    assert!(cache.key_is_live(&key));
    assert!(!cache.key_is_live(&BindGroupReferenceBase::Bindgroup0(5)));
}

#[test]
fn storage_from_slice_takes_elements_of_four_bytes_only() {
    let mut dev = device();
    let floats = storage_from_slice(&mut dev, DType::F32, &[1.5f32.to_bits(), 0, u32::MAX]).unwrap();
    assert_eq!((floats.buffer, floats.storage, floats.created), (0, 0, true));
    assert_eq!(floats.data.len(), 12);
    assert_eq!(floats.data[0..4], 1.5f32.to_ne_bytes());
    assert_eq!(dev.cache.references[0].size, 12);
    assert_eq!(dev.cache.references[0].storage, Some(0));
    let words = storage_from_slice(&mut dev, DType::U32, &[7, 8]).unwrap();
    assert_eq!((words.buffer, words.storage, words.created), (1, 1, true));
    assert_eq!(words.data[0..4], 7u32.to_ne_bytes());
    for dtype in [DType::U8, DType::I64, DType::BF16, DType::F16, DType::F64] {
        match storage_from_slice(&mut dev, dtype, &[1, 2]) {
            Err(WebGpuError::UnsupportedDType(d)) => assert_eq!(d, dtype),
            other => panic!("{dtype:?} gave {other:?}"),
        }
    }
    assert_eq!(dev.cache.references.len(), 2);
    assert_eq!(dev.cache.buffers.buffers.len(), 2);
}
