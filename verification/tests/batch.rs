use gpu_dispatch::batch::get_inplace_variant;
use gpu_dispatch::batch::unary_inplace_operands;
use gpu_dispatch::buffer::BufferReference;
use gpu_dispatch::device::get_meta;
use gpu_dispatch::device::DeviceLimits;
use gpu_dispatch::device::WgpuDevice;
use gpu_dispatch::dtype::KernelDType;
use gpu_dispatch::flush::flush_gpu_command;
use gpu_dispatch::kernels::BinaryFunctions;
use gpu_dispatch::kernels::Pipelines;
use gpu_dispatch::kernels::Shaders;
use gpu_dispatch::kernels::UnaryFunctions;
use gpu_dispatch::liveness::use_ranges;
use gpu_dispatch::plan::DispatchCommand;
use gpu_dispatch::plan::FlushPlan;
use gpu_dispatch::pool::CachedBuffer;
use gpu_dispatch::pool::StorageState;
use gpu_dispatch::queue::create_bind_group_input0;
use gpu_dispatch::queue::create_bind_group_input1;
use gpu_dispatch::queue::create_bind_group_input2;
use gpu_dispatch::queue::enqueue_workgroups;
use gpu_dispatch::queue::BindGroupReferenceBase;
use gpu_dispatch::queue::OpIsInplaceable;
use gpu_dispatch::queue::PipelineType;
use gpu_dispatch::queue::MAX_WORKLOAD_SIZE;
use gpu_dispatch::queue::META_BUFFER_SIZE;
use gpu_dispatch::storage::create_buffer_reference;
use gpu_dispatch::storage::create_buffer_init;
use gpu_dispatch::storage::hold_buffer;

const GIB: usize = 1024 * 1024 * 1024;

fn from_buffer() -> Pipelines {
    Pipelines::Unary(KernelDType::F32, UnaryFunctions::UnaryFromBufferContiguous)
}

fn in_place() -> Pipelines {
    Pipelines::Unary(KernelDType::F32, UnaryFunctions::UnaryInplaceContiguous)
}

fn device(max_bindgroups: usize) -> WgpuDevice {
    WgpuDevice::new(DeviceLimits { min_storage_buffer_offset_alignment: 256 }, max_bindgroups)
}

fn queue_unary(dev: &mut WgpuDevice, dest: usize, source: usize, workload: usize) {
    get_meta(dev);
    dev.command_queue.add(4);
    dev.command_queue.add(0);
    let pipeline = dev.command_queue.get_pipeline(from_buffer());
    enqueue_workgroups(
        &mut dev.command_queue,
        pipeline,
        create_bind_group_input1(dest, source),
        1,
        1,
        1,
        workload,
    );
}

fn queue_strided(dev: &mut WgpuDevice, dest: usize, source: usize, workload: usize) {
    get_meta(dev);
    dev.command_queue.add(4);
    let pipeline = dev
        .command_queue
        .get_pipeline(Pipelines::Unary(KernelDType::F32, UnaryFunctions::UnaryFromBuffer));
    enqueue_workgroups(
        &mut dev.command_queue,
        pipeline,
        create_bind_group_input1(dest, source),
        1,
        1,
        1,
        workload,
    );
}

fn all_dispatches(plan: &FlushPlan) -> Vec<DispatchCommand> {
    plan.command_buffers.iter().flat_map(|cb| cb.dispatches.iter().copied()).collect()
}

fn windows(plan: &FlushPlan) -> Vec<(usize, usize)> {
    plan.command_buffers.iter().map(|cb| (cb.start, cb.end)).collect()
}

#[test]
fn flushing_an_empty_queue_does_nothing() {
    let mut dev = device(16);
    let a = create_buffer_reference(&mut dev, 16);
    dev.command_queue.add(5);
    let plan = flush_gpu_command(&mut dev);
    assert!(plan.command_buffers.is_empty());
    assert!(plan.dropped_bindgroups.is_empty());
    assert!(plan.dropped_buffers.is_empty());
    assert_eq!(dev.command_queue.get_meta(), &vec![5]);
    assert_eq!(dev.cache.references[a].storage, None);
    assert_eq!(dev.cache.buffers.max_memory_allowed, 0);
}

#[test]
fn unary_chain_is_rewritten_in_place_where_the_source_is_a_temporary() {
    // input -> A -> B -> C: the input and B and C are held by tensors, A is a temporary.
    let mut dev = device(16);
    let input = create_buffer_init(&mut dev, &[1, 2, 3, 4]);
    assert_eq!((input.buffer, input.storage, input.created), (0, 0, true));
    hold_buffer(&mut dev, input.buffer);
    let a = create_buffer_reference(&mut dev, 16);
    let b = create_buffer_reference(&mut dev, 16);
    let c = create_buffer_reference(&mut dev, 16);
    hold_buffer(&mut dev, b);
    hold_buffer(&mut dev, c);
    queue_unary(&mut dev, a, input.buffer, 4);
    queue_unary(&mut dev, b, a, 4);
    queue_unary(&mut dev, c, b, 4);

    let plan = flush_gpu_command(&mut dev);

    assert_eq!(windows(&plan), vec![(0, 3)]);
    let dispatches = all_dispatches(&plan);
    assert_eq!(dispatches.len(), 3);
    // A was given storage 1; B took it over in place; C has storage of its own.
    assert_eq!(dev.cache.references[a].storage, None);
    assert_eq!(dev.cache.references[b].storage, Some(1));
    assert_eq!(dev.cache.references[c].storage, Some(2));
    assert_eq!(dev.cache.references[input.buffer].storage, Some(0));
    assert_ne!(dev.cache.references[b].storage, dev.cache.references[c].storage);
    // The kernels: from buffer, in place, from buffer.
    let kernels: Vec<Pipelines> =
        dispatches.iter().map(|d| dev.shader.pipelines[d.pipeline].pipeline.0).collect();
    assert_eq!(kernels, vec![from_buffer(), in_place(), from_buffer()]);
    assert_eq!(dispatches[0].pipeline, dispatches[2].pipeline);
    // The bindings: (A, input), (A) alone, (C, B).
    let keys: Vec<_> = dispatches.iter().map(|d| dev.cache.bindgroups[d.bindgroup].key).collect();
    assert_eq!(
        keys,
        vec![
            BindGroupReferenceBase::Bindgroup1(1, 0),
            BindGroupReferenceBase::Bindgroup0(1),
            BindGroupReferenceBase::Bindgroup1(2, 1)
        ]
    );
    let offsets: Vec<u32> = dispatches.iter().map(|d| d.dynamic_offset).collect();
    assert_eq!(offsets, vec![0, 256, 512]);
    assert!(dev.command_queue.command_queue.is_empty());
    assert!(dev.command_queue.get_meta().is_empty());
    assert_eq!(dev.shader.shaders, vec![Shaders::Unary(KernelDType::F32)]);
    // The ceiling follows the high-water mark: 16 bytes in use, and at most two more
    // buffers of 16 bytes at once.
    assert_eq!(dev.cache.buffers.max_memory_allowed, 48 * 6 / 5);
}

#[test]
fn inplace_rewrite_needs_a_source_without_other_references() {
    let pipeline = PipelineType(from_buffer(), 0, OpIsInplaceable::new());
    let record = |dest: usize, source: usize, kernel: Pipelines| gpu_dispatch::queue::MlQueueDispatch {
        x: 1,
        y: 1,
        z: 1,
        pipeline: PipelineType(kernel, pipeline.1, pipeline.2),
        bindgroup: gpu_dispatch::queue::DispatchedBindgroup::BindgroupReference(
            create_bind_group_input1(dest, source),
        ),
        pipeline_cached: None,
        meta: 0,
        workload_size: 1,
    };
    let temporary = |size: u64| BufferReference { size, storage: None, referenced_by_storage: false };
    let references = vec![
        BufferReference { size: 16, storage: Some(0), referenced_by_storage: false },
        temporary(16),
        temporary(32),
        BufferReference { size: 16, storage: Some(1), referenced_by_storage: true },
        BufferReference { size: 8, storage: Some(2), referenced_by_storage: false },
    ];
    let check = |records: Vec<gpu_dispatch::queue::MlQueueDispatch>, index: usize| {
        let (_first, last) = use_ranges(&records, references.len());
        unary_inplace_operands(&references, &records, index, &last)
    };
    // The only reference, large enough, destination without storage: eligible.
    assert_eq!(check(vec![record(1, 0, from_buffer())], 0), Some((1, 0)));
    // A larger destination does not fit into the source.
    assert_eq!(check(vec![record(2, 0, from_buffer())], 0), None);
    // A source that a tensor still refers to has another reference.
    assert_eq!(check(vec![record(1, 3, from_buffer())], 0), None);
    // A source that a later dispatch reads has another reference.
    assert_eq!(
        check(vec![record(1, 0, from_buffer()), record(2, 0, from_buffer())], 0),
        None
    );
    // The later dispatch itself is the last reader.
    assert_eq!(
        check(vec![record(1, 0, from_buffer()), record(2, 0, from_buffer())], 1),
        None
    );
    assert_eq!(
        check(vec![record(2, 0, from_buffer()), record(1, 0, from_buffer())], 1),
        Some((1, 0))
    );
    // A destination that has storage already keeps it.
    assert_eq!(check(vec![record(4, 0, from_buffer())], 0), None);
    // A dispatch that reads what it writes is left alone.
    assert_eq!(check(vec![record(1, 1, from_buffer())], 0), None);
    // Kernels without an in-place twin are left alone.
    assert_eq!(check(vec![record(1, 0, in_place())], 0), None);
    assert_eq!(
        check(
            vec![record(
                1,
                0,
                Pipelines::Unary(KernelDType::F32, UnaryFunctions::UnaryFromBuffer)
            )],
            0
        ),
        None
    );
    assert_eq!(get_inplace_variant(&from_buffer()), Some(in_place()));
    assert_eq!(get_inplace_variant(&in_place()), None);
    assert_eq!(
        get_inplace_variant(&Pipelines::Unary(
            KernelDType::U32,
            UnaryFunctions::UnaryFromBufferContiguous
        )),
        Some(Pipelines::Unary(KernelDType::U32, UnaryFunctions::UnaryInplaceContiguous))
    );
}

#[test]
fn flush_keeps_the_queue_order() {
    let mut dev = device(64);
    let buffers: Vec<usize> = (0..6).map(|_| create_buffer_reference(&mut dev, 64)).collect();
    for &b in &buffers {
        hold_buffer(&mut dev, b);
    }
    for i in 0..5u32 {
        get_meta(&mut dev);
        dev.command_queue.add(i);
        let pipeline = dev.command_queue.get_pipeline(from_buffer());
        enqueue_workgroups(
            &mut dev.command_queue,
            pipeline,
            create_bind_group_input1(buffers[i as usize + 1], buffers[i as usize]),
            i + 1,
            i + 2,
            i + 3,
            3 * GIB,
        );
    }
    let plan = flush_gpu_command(&mut dev);
    let dispatches = all_dispatches(&plan);
    let counts: Vec<(u32, u32, u32)> = dispatches.iter().map(|d| (d.x, d.y, d.z)).collect();
    assert_eq!(counts, vec![(1, 2, 3), (2, 3, 4), (3, 4, 5), (4, 5, 6), (5, 6, 7)]);
    // Three dispatches of 3 GiB fit the limit of 10 GiB, a fourth does not.
    assert_eq!(windows(&plan), vec![(0, 3), (3, 5)]);
    // Each destination gets its storage before the source does.
    let keys: Vec<_> = dispatches.iter().map(|d| dev.cache.bindgroups[d.bindgroup].key).collect();
    assert_eq!(
        keys,
        vec![
            BindGroupReferenceBase::Bindgroup1(0, 1),
            BindGroupReferenceBase::Bindgroup1(2, 0),
            BindGroupReferenceBase::Bindgroup1(3, 2),
            BindGroupReferenceBase::Bindgroup1(4, 3),
            BindGroupReferenceBase::Bindgroup1(5, 4)
        ]
    );
}

#[test]
fn a_batch_over_the_workload_limit_is_split() {
    assert_eq!(MAX_WORKLOAD_SIZE, 10 * 1024 * 1024 * 1024);
    let mut dev = device(64);
    let a = create_buffer_reference(&mut dev, 64);
    let b = create_buffer_reference(&mut dev, 64);
    hold_buffer(&mut dev, a);
    hold_buffer(&mut dev, b);
    for _ in 0..3 {
        queue_unary(&mut dev, b, a, 4 * GIB);
    }
    let plan = flush_gpu_command(&mut dev);
    assert_eq!(windows(&plan), vec![(0, 2), (2, 3)]);
    assert!(plan.command_buffers.len() >= 2);
    assert_eq!(plan.command_buffers[0].dispatches.len(), 2);
    assert_eq!(plan.command_buffers[1].dispatches.len(), 1);
    assert!(!plan.command_buffers[0].closed_by_cache);
}

#[test]
fn a_batch_at_the_workload_limit_is_one_window() {
    let mut dev = device(64);
    let a = create_buffer_reference(&mut dev, 64);
    let b = create_buffer_reference(&mut dev, 64);
    hold_buffer(&mut dev, a);
    hold_buffer(&mut dev, b);
    queue_unary(&mut dev, b, a, 5 * GIB);
    queue_unary(&mut dev, b, a, 5 * GIB);
    queue_unary(&mut dev, b, a, 1);
    let plan = flush_gpu_command(&mut dev);
    assert_eq!(windows(&plan), vec![(0, 2), (2, 3)]);
}

#[test]
fn an_oversized_dispatch_passes_alone() {
    let mut dev = device(64);
    let a = create_buffer_reference(&mut dev, 64);
    let b = create_buffer_reference(&mut dev, 64);
    hold_buffer(&mut dev, a);
    hold_buffer(&mut dev, b);
    queue_unary(&mut dev, b, a, 1);
    queue_unary(&mut dev, b, a, 20 * GIB);
    queue_unary(&mut dev, b, a, 1);
    queue_unary(&mut dev, b, a, 1);
    let plan = flush_gpu_command(&mut dev);
    assert_eq!(windows(&plan), vec![(0, 1), (1, 2), (2, 4)]);
}

#[test]
fn a_window_is_closed_before_its_metadata_overflows() {
    assert_eq!(META_BUFFER_SIZE, 10 * 1024 * 1024);
    let mut dev = device(64);
    let a = create_buffer_reference(&mut dev, 64);
    let b = create_buffer_reference(&mut dev, 64);
    hold_buffer(&mut dev, a);
    hold_buffer(&mut dev, b);
    // The first dispatch writes so many words that the second begins 2621312 words in:
    // with the margin of 768 bytes that is beyond the parameter buffer.
    get_meta(&mut dev);
    dev.command_queue.add_words(&vec![7u32; 2_621_300]);
    let pipeline = dev.command_queue.get_pipeline(from_buffer());
    enqueue_workgroups(&mut dev.command_queue, pipeline, create_bind_group_input1(b, a), 1, 1, 1, 1);
    queue_unary(&mut dev, b, a, 1);
    queue_unary(&mut dev, b, a, 1);
    let offsets: Vec<u32> = dev.command_queue.command_queue.iter().map(|q| q.meta).collect();
    assert_eq!(offsets, vec![0, 2_621_312, 2_621_376]);

    let plan = flush_gpu_command(&mut dev);

    assert_eq!(windows(&plan), vec![(0, 1), (1, 3)]);
    assert_eq!(plan.command_buffers[0].dispatches[0].dynamic_offset, 0);
    assert_eq!(plan.command_buffers[0].meta.len(), 256);
    let second: Vec<u32> =
        plan.command_buffers[1].dispatches.iter().map(|d| d.dynamic_offset).collect();
    assert_eq!(second, vec![0, 256]);
    assert_eq!(plan.command_buffers[1].meta.len(), 4 * (64 + 2));
    for cb in &plan.command_buffers {
        assert!(cb.meta.len() + 256 <= META_BUFFER_SIZE as usize);
        for d in &cb.dispatches {
            assert!(d.dynamic_offset as usize + 768 <= META_BUFFER_SIZE as usize);
        }
    }
}

#[test]
fn metadata_that_just_fits_stays_in_one_window() {
    let mut dev = device(64);
    let a = create_buffer_reference(&mut dev, 64);
    let b = create_buffer_reference(&mut dev, 64);
    hold_buffer(&mut dev, a);
    hold_buffer(&mut dev, b);
    get_meta(&mut dev);
    dev.command_queue.add_words(&vec![7u32; 2_621_248]);
    let pipeline = dev.command_queue.get_pipeline(from_buffer());
    enqueue_workgroups(&mut dev.command_queue, pipeline, create_bind_group_input1(b, a), 1, 1, 1, 1);
    queue_unary(&mut dev, b, a, 1);
    let plan = flush_gpu_command(&mut dev);
    assert_eq!(windows(&plan), vec![(0, 2)]);
    let offsets: Vec<u32> =
        plan.command_buffers[0].dispatches.iter().map(|d| d.dynamic_offset).collect();
    assert_eq!(offsets, vec![0, 10_484_992]);
    assert_eq!(offsets[1] as usize + 768, META_BUFFER_SIZE as usize);
    assert_eq!(plan.command_buffers[0].meta.len(), 4 * (2_621_248 + 2));
}

#[test]
fn the_metadata_of_a_window_is_its_part_of_the_blob() {
    let mut dev = device(64);
    let a = create_buffer_reference(&mut dev, 64);
    hold_buffer(&mut dev, a);
    get_meta(&mut dev);
    dev.command_queue.add(0x0102_0304);
    dev.command_queue.add(5);
    let pipeline = dev.command_queue.get_pipeline(in_place());
    enqueue_workgroups(&mut dev.command_queue, pipeline, create_bind_group_input0(a), 1, 1, 1, 1);
    let plan = flush_gpu_command(&mut dev);
    let mut expected: Vec<u8> = Vec::new();
    expected.extend_from_slice(&0x0102_0304u32.to_ne_bytes());
    expected.extend_from_slice(&5u32.to_ne_bytes());
    assert_eq!(plan.command_buffers[0].meta, expected);
}

#[test]
fn equal_bindings_share_one_binding_object() {
    let mut dev = device(64);
    let a = create_buffer_reference(&mut dev, 64);
    let b = create_buffer_reference(&mut dev, 64);
    let c = create_buffer_reference(&mut dev, 64);
    for buffer in [a, b, c] {
        hold_buffer(&mut dev, buffer);
    }
    queue_unary(&mut dev, b, a, 1);
    queue_unary(&mut dev, c, a, 1);
    queue_unary(&mut dev, b, a, 1);
    let plan = flush_gpu_command(&mut dev);
    let ids: Vec<usize> = all_dispatches(&plan).iter().map(|d| d.bindgroup).collect();
    assert_eq!(ids, vec![0, 1, 0]);
    assert_eq!(plan.command_buffers[0].bindgroup_count, 2);
    assert_eq!(plan.command_buffers[0].storage_count, 3);
    assert_eq!(plan.command_buffers[0].pipeline_count, 1);
    assert_eq!(plan.command_buffers[0].shader_count, 1);
    // A later flush finds the binding objects again.
    queue_unary(&mut dev, c, a, 1);
    let later = flush_gpu_command(&mut dev);
    assert_eq!(all_dispatches(&later)[0].bindgroup, 1);
    assert_eq!(later.command_buffers[0].bindgroup_count, 2);
}

#[test]
fn pressure_on_the_binding_cache_closes_the_window() {
    let mut dev = device(1);
    let buffers: Vec<usize> = (0..5).map(|_| create_buffer_reference(&mut dev, 64)).collect();
    for &b in &buffers {
        hold_buffer(&mut dev, b);
    }
    for i in 0..4 {
        queue_unary(&mut dev, buffers[i + 1], buffers[i], 1);
    }
    let plan = flush_gpu_command(&mut dev);
    // The second binding object is one more than the cache may hold: the window closes
    // behind it and all binding objects go; the same happens again.
    assert_eq!(windows(&plan), vec![(0, 2), (2, 4)]);
    assert!(plan.command_buffers[0].closed_by_cache);
    assert!(plan.command_buffers[1].closed_by_cache);
    let ids: Vec<usize> = all_dispatches(&plan).iter().map(|d| d.bindgroup).collect();
    assert_eq!(ids, vec![0, 1, 2, 3]);
    let mut dropped = plan.dropped_bindgroups.clone();
    dropped.sort();
    assert_eq!(dropped, vec![0, 1, 2, 3]);
    assert!(dev.cache.bindgroups.iter().all(|g| !g.alive));
    assert_eq!(dev.cache.count_bind_groups(), 0);
}

#[test]
fn storage_of_finished_temporaries_is_used_again() {
    let mut dev = device(64);
    let input = create_buffer_init(&mut dev, &[0; 16]);
    hold_buffer(&mut dev, input.buffer);
    let binary = Pipelines::Binary(KernelDType::F32, BinaryFunctions::BinaryBufferFromBuffer);
    // t1 = f(input, input); t2 = f(t1, input); t3 = f(t2, input); out = f(t3, input)
    let t1 = create_buffer_reference(&mut dev, 64);
    let t2 = create_buffer_reference(&mut dev, 64);
    let t3 = create_buffer_reference(&mut dev, 64);
    let out = create_buffer_reference(&mut dev, 64);
    hold_buffer(&mut dev, out);
    let mut previous = input.buffer;
    for dest in [t1, t2, t3, out] {
        get_meta(&mut dev);
        dev.command_queue.add(16);
        let pipeline = dev.command_queue.get_pipeline(binary);
        enqueue_workgroups(
            &mut dev.command_queue,
            pipeline,
            create_bind_group_input2(dest, previous, input.buffer),
            1,
            1,
            1,
            16,
        );
        previous = dest;
    }
    let plan = flush_gpu_command(&mut dev);
    // Storage 0 is the input. t1 takes storage 1, t2 takes storage 2; t1 is finished
    // there, so t3 takes storage 1 again, and the result takes storage 2.
    assert_eq!(plan.command_buffers[0].storage_count, 3);
    let keys: Vec<_> =
        all_dispatches(&plan).iter().map(|d| dev.cache.bindgroups[d.bindgroup].key).collect();
    assert_eq!(
        keys,
        vec![
            BindGroupReferenceBase::Bindgroup2(1, 0, 0),
            BindGroupReferenceBase::Bindgroup2(2, 1, 0),
            BindGroupReferenceBase::Bindgroup2(1, 2, 0),
            BindGroupReferenceBase::Bindgroup2(2, 1, 0)
        ]
    );
    assert_eq!(dev.cache.references[out].storage, Some(2));
    assert_eq!(dev.cache.references[t1].storage, None);
    assert_eq!(dev.cache.references[t3].storage, None);
    // 64 bytes in use before, at most three buffers of 64 bytes live at once, a fifth on
    // top: the ceiling is 230 bytes, and the pool holds 192.
    assert_eq!(dev.cache.buffers.max_memory_allowed, 192 * 6 / 5);
    assert!(plan.dropped_buffers.is_empty());
    assert_eq!(
        dev.cache.buffers.buffers,
        vec![
            CachedBuffer { size: 64, state: StorageState::InUse },
            CachedBuffer { size: 64, state: StorageState::Free },
            CachedBuffer { size: 64, state: StorageState::InUse }
        ]
    );
}

#[test]
fn free_storage_beyond_the_ceiling_is_given_back() {
    let mut dev = device(64);
    let input = create_buffer_init(&mut dev, &[0; 4]);
    hold_buffer(&mut dev, input.buffer);
    let big = create_buffer_reference(&mut dev, 4000);
    let out = create_buffer_reference(&mut dev, 16);
    hold_buffer(&mut dev, out);
    queue_strided(&mut dev, big, input.buffer, 1);
    queue_strided(&mut dev, out, big, 1);
    let first = flush_gpu_command(&mut dev);
    // The ceiling rose to cover 16 + 4000 + 16 bytes with the margin; the big buffer is
    // free again and stays in the pool.
    assert_eq!(dev.cache.buffers.max_memory_allowed, 4032 * 6 / 5);
    assert!(first.dropped_buffers.is_empty());
    assert_eq!(dev.cache.buffers.memory_allocated(), 4032);
    assert_eq!(dev.cache.buffers.memory_in_use(), 32);
    // Small batches let the ceiling decay until the free buffer no longer fits under it.
    let mut dropped = Vec::new();
    let mut rounds = 0;
    while dropped.is_empty() {
        queue_strided(&mut dev, out, input.buffer, 1);
        let plan = flush_gpu_command(&mut dev);
        dropped = plan.dropped_buffers;
        rounds += 1;
        assert!(rounds < 100);
    }
    assert_eq!(dropped, vec![1]);
    assert!(dev.cache.buffers.max_memory_allowed < 4032);
    assert_eq!(dev.cache.buffers.buffers[1].state, StorageState::Deleted);
    assert_eq!(dev.cache.buffers.memory_allocated(), 32);
    // The binding objects made from it are gone as well.
    assert!(dev
        .cache
        .bindgroups
        .iter()
        .all(|g| !g.alive || !matches!(g.key, BindGroupReferenceBase::Bindgroup1(1, _) | BindGroupReferenceBase::Bindgroup1(_, 1))));
}
