use gpu_dispatch::buffer::BufferReference;
use gpu_dispatch::ceiling::next_memory_ceiling;
use gpu_dispatch::dtype::KernelDType;
use gpu_dispatch::kernels::Pipelines;
use gpu_dispatch::kernels::UnaryFunctions;
use gpu_dispatch::liveness::high_water_mark;
use gpu_dispatch::liveness::use_ranges;
use gpu_dispatch::queue::BindGroupReference;
use gpu_dispatch::queue::BindGroupReferenceBase;
use gpu_dispatch::queue::DispatchedBindgroup;
use gpu_dispatch::queue::MlQueueDispatch;
use gpu_dispatch::queue::OpIsInplaceable;
use gpu_dispatch::queue::PipelineType;
use gpu_dispatch::wide::WideCount;

fn record(binding: BindGroupReference) -> MlQueueDispatch {
    MlQueueDispatch {
        x: 1,
        y: 1,
        z: 1,
        pipeline: PipelineType(
            Pipelines::Unary(KernelDType::F32, UnaryFunctions::UnaryFromBufferContiguous),
            0,
            OpIsInplaceable::new(),
        ),
        bindgroup: DispatchedBindgroup::BindgroupReference(binding),
        pipeline_cached: None,
        meta: 0,
        workload_size: 1,
    }
}

fn temporary(size: u64) -> BufferReference {
    BufferReference { size, storage: None, referenced_by_storage: false }
}

fn held(size: u64) -> BufferReference {
    BufferReference { size, storage: None, referenced_by_storage: true }
}

#[test]
fn use_ranges_find_first_and_last_use() {
    let records = vec![
        record(BindGroupReferenceBase::Bindgroup1(1, 0)),
        record(BindGroupReferenceBase::Bindgroup2(2, 1, 0)),
        record(BindGroupReferenceBase::Bindgroup0(2)),
    ];
    let (first, last) = use_ranges(&records, 4);
    assert_eq!(first, vec![0, 0, 1, 3]);
    assert_eq!(last, vec![1, 1, 2, 3]);
}

#[test]
fn high_water_mark_of_an_empty_batch_is_the_base() {
    assert_eq!(high_water_mark(&vec![], &vec![temporary(10)], 123), 123);
}

#[test]
fn high_water_mark_of_a_chain_of_temporaries() {
    // 0 -> 1 -> 2 -> 3, every buffer of 100 bytes and unmaterialized; each is free after
    // its last use, so at most two are live at once.
    let references = vec![temporary(100), temporary(100), temporary(100), temporary(100)];
    let records = vec![
        record(BindGroupReferenceBase::Bindgroup1(1, 0)),
        record(BindGroupReferenceBase::Bindgroup1(2, 1)),
        record(BindGroupReferenceBase::Bindgroup1(3, 2)),
    ];
    assert_eq!(high_water_mark(&records, &references, 0), 200);
    assert_eq!(high_water_mark(&records, &references, 50), 250);
}

#[test]
fn high_water_mark_counts_held_buffers_to_the_end() {
    let references = vec![held(100), held(100), held(100), held(100)];
    let records = vec![
        record(BindGroupReferenceBase::Bindgroup1(1, 0)),
        record(BindGroupReferenceBase::Bindgroup1(2, 1)),
        record(BindGroupReferenceBase::Bindgroup1(3, 2)),
    ];
    assert_eq!(high_water_mark(&records, &references, 0), 400);
}

#[test]
fn high_water_mark_is_not_below_any_live_sum() {
    // A single dispatch whose buffers stay held: nothing is ever released, and the mark
    // still covers both.
    let references = vec![held(70), held(30)];
    let records = vec![record(BindGroupReferenceBase::Bindgroup1(0, 1))];
    assert_eq!(high_water_mark(&records, &references, 0), 100);
    // Buffers released within the dispatch that uses them still count during it.
    let references = vec![temporary(70), temporary(30)];
    assert_eq!(high_water_mark(&records, &references, 0), 100);
}

#[test]
fn high_water_mark_leaves_materialized_buffers_to_the_base() {
    let references = vec![
        BufferReference { size: 64, storage: Some(0), referenced_by_storage: true },
        temporary(16),
        BufferReference { size: 32, storage: Some(1), referenced_by_storage: false },
    ];
    let records = vec![
        record(BindGroupReferenceBase::Bindgroup2(1, 0, 2)),
        record(BindGroupReferenceBase::Bindgroup1(0, 1)),
    ];
    // base 96, plus 16 for the new buffer during both dispatches; buffer 2 is released
    // after the first dispatch.
    assert_eq!(high_water_mark(&records, &references, 96), 112);
}

#[test]
fn high_water_mark_counts_a_buffer_once_where_a_dispatch_binds_it_twice() {
    let references = vec![temporary(10)];
    let records = vec![record(BindGroupReferenceBase::Bindgroup1(0, 0))];
    assert_eq!(high_water_mark(&records, &references, 0), 10);
}

#[test]
fn high_water_mark_stays_in_range() {
    let references = vec![held(u64::MAX), held(u64::MAX)];
    let records = vec![record(BindGroupReferenceBase::Bindgroup1(0, 1))];
    assert_eq!(high_water_mark(&records, &references, 0), u64::MAX);
    assert_eq!(high_water_mark(&vec![], &references, u128::MAX), u64::MAX);
}

#[test]
fn ceiling_rises_at_once_and_decays_slowly() {
    assert_eq!(next_memory_ceiling(0, 100), 120);
    assert_eq!(next_memory_ceiling(100, 100), 120);
    assert_eq!(next_memory_ceiling(120, 100), 120);
    assert_eq!(next_memory_ceiling(1000, 100), 912);
    assert_eq!(next_memory_ceiling(1000, 0), 900);
    assert_eq!(next_memory_ceiling(7, 5), 6);
    assert_eq!(next_memory_ceiling(0, 0), 0);
    assert_eq!(next_memory_ceiling(5, u64::MAX), u64::MAX);
    assert_eq!(next_memory_ceiling(u64::MAX, u64::MAX), u64::MAX);
}

#[test]
fn ceiling_never_falls_below_the_mark() {
    for ceiling in [0u64, 1, 99, 100, 119, 120, 121, 5000] {
        for mark in [0u64, 1, 4, 5, 99, 100, 4166, 4167] {
            let next = next_memory_ceiling(ceiling, mark);
            assert!(next >= mark);
            assert!(next >= mark + mark / 5);
        }
    }
}

#[test]
fn wide_counts_add_without_overflow() {
    let mut count = WideCount::new(u128::MAX);
    count.add(1);
    assert_eq!((count.carry, count.low), (1, 0));
    count.add(u128::MAX);
    assert_eq!((count.carry, count.low), (1, u128::MAX));
    count.add(5);
    assert_eq!((count.carry, count.low), (2, 4));
    let small = WideCount::new(7);
    assert_eq!(count.clamped_excess(&small), u64::MAX);
    assert_eq!(small.clamped_excess(&count), 0);
    assert_eq!(WideCount::new(10).clamped_excess(&WideCount::new(3)), 7);
    assert_eq!(WideCount::new(3).clamped_excess(&WideCount::new(3)), 0);
    let mut just_over = WideCount::new(u128::MAX);
    just_over.add(3);
    assert_eq!(just_over.clamped_excess(&WideCount::new(u128::MAX)), 3);
}
