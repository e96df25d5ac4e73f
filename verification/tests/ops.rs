use gpu_dispatch::copy::queue_copy3d;
use gpu_dispatch::copy::queue_copy3d_padded;
use gpu_dispatch::device::DeviceLimits;
use gpu_dispatch::device::WgpuDevice;
use gpu_dispatch::dtype::DType;
use gpu_dispatch::dtype::KernelDType;
use gpu_dispatch::dtype::WebGpuError;
use gpu_dispatch::index_select::product_of;
use gpu_dispatch::index_select::queue_index_select;
use gpu_dispatch::kernels::Constants;
use gpu_dispatch::kernels::CopyFunctions;
use gpu_dispatch::kernels::IndexSelectFunctions;
use gpu_dispatch::kernels::Pipelines;
use gpu_dispatch::kernels::UpsampleFunctions;
use gpu_dispatch::layout::Layout;
use gpu_dispatch::queue::BindGroupReferenceBase;
use gpu_dispatch::queue::DispatchedBindgroup;
use gpu_dispatch::queue::MlQueueDispatch;
use gpu_dispatch::queue::OpIsInplaceable;
use gpu_dispatch::queue::PipelineType;
use gpu_dispatch::storage::create_buffer_reference;
use gpu_dispatch::upsample::queue_upsample1d;
use gpu_dispatch::upsample::queue_upsample2d;

fn device() -> WgpuDevice {
    WgpuDevice::new(DeviceLimits { min_storage_buffer_offset_alignment: 256 }, 32)
}

#[test]
fn upsample1d_queues_one_dispatch() {
    let mut dev = device();
    let dest = create_buffer_reference(&mut dev, 240);
    let input = create_buffer_reference(&mut dev, 120);
    dev.command_queue.add(99);
    let layout = Layout::contiguous(vec![2, 3, 5]);
    assert_eq!(queue_upsample1d(&mut dev, dest, input, &layout, DType::F32, 10), Ok(()));
    let mut expected_meta = vec![99];
    expected_meta.extend(vec![0; 63]);
    expected_meta.extend(vec![10, 2, 3, 5, 0, 15, 5, 1, 30, 10]);
    assert_eq!(dev.command_queue.get_meta(), &expected_meta);
    assert_eq!(
        dev.command_queue.command_queue,
        vec![MlQueueDispatch {
            x: 1,
            y: 3,
            z: 2,
            pipeline: PipelineType(
                Pipelines::Upsample(KernelDType::F32, UpsampleFunctions::Upsample1d),
                0,
                OpIsInplaceable::new()
            ),
            bindgroup: DispatchedBindgroup::BindgroupReference(
                BindGroupReferenceBase::Bindgroup1(dest, input)
            ),
            pipeline_cached: None,
            meta: 64,
            workload_size: 60,
        }]
    );
}

#[test]
fn upsample1d_counts_workgroups_of_sixty_three() {
    let mut dev = device();
    let dest = create_buffer_reference(&mut dev, 4);
    let input = create_buffer_reference(&mut dev, 4);
    let layout = Layout::contiguous(vec![1, 1, 5]);
    assert_eq!(queue_upsample1d(&mut dev, dest, input, &layout, DType::U32, 63), Ok(()));
    assert_eq!(queue_upsample1d(&mut dev, dest, input, &layout, DType::U32, 64), Ok(()));
    assert_eq!(queue_upsample1d(&mut dev, dest, input, &layout, DType::U32, 0), Ok(()));
    let counts: Vec<u32> = dev.command_queue.command_queue.iter().map(|q| q.x).collect();
    assert_eq!(counts, vec![2, 2, 1]);
}

#[test]
fn upsample_rejects_other_ranks_and_types() {
    let mut dev = device();
    let dest = create_buffer_reference(&mut dev, 4);
    let input = create_buffer_reference(&mut dev, 4);
    assert_eq!(
        queue_upsample1d(&mut dev, dest, input, &Layout::contiguous(vec![2, 3]), DType::F32, 4),
        Err(WebGpuError::UnexpectedNumberOfDims { expected: 3, got: 2 })
    );
    assert_eq!(
        queue_upsample1d(&mut dev, dest, input, &Layout::contiguous(vec![2, 3, 4]), DType::F16, 4),
        Err(WebGpuError::UnsupportedDType(DType::F16))
    );
    assert_eq!(
        queue_upsample2d(
            &mut dev,
            dest,
            input,
            &Layout::contiguous(vec![2, 3, 4]),
            DType::F32,
            (4, 4)
        ),
        Err(WebGpuError::UnexpectedNumberOfDims { expected: 4, got: 3 })
    );
    assert_eq!(
        queue_upsample2d(
            &mut dev,
            dest,
            input,
            &Layout::contiguous(vec![1, 2, 3, 4]),
            DType::I64,
            (4, 4)
        ),
        Err(WebGpuError::UnsupportedDType(DType::I64))
    );
    // The rank is looked at before the element type.
    assert_eq!(
        queue_upsample2d(&mut dev, dest, input, &Layout::contiguous(vec![2]), DType::I64, (4, 4)),
        Err(WebGpuError::UnexpectedNumberOfDims { expected: 4, got: 1 })
    );
    assert!(dev.command_queue.command_queue.is_empty());
    assert!(dev.command_queue.get_meta().is_empty());
}

#[test]
fn upsample2d_queues_one_dispatch() {
    let mut dev = device();
    let dest = create_buffer_reference(&mut dev, 4);
    let input = create_buffer_reference(&mut dev, 4);
    let layout = Layout::new(vec![1, 2, 4, 4], vec![32, 16, 4, 1], 3);
    assert_eq!(queue_upsample2d(&mut dev, dest, input, &layout, DType::F32, (8, 6)), Ok(()));
    assert_eq!(
        dev.command_queue.get_meta(),
        &vec![8, 6, 1, 2, 4, 4, 3, 32, 16, 4, 1, 96, 48, 6]
    );
    let q = dev.command_queue.command_queue[0];
    assert_eq!((q.x, q.y, q.z), (1, 1, 2));
    assert_eq!(q.workload_size, 96);
    assert_eq!(q.pipeline.0, Pipelines::Upsample(KernelDType::F32, UpsampleFunctions::Upsample2d));
    assert_eq!(
        q.bindgroup,
        DispatchedBindgroup::BindgroupReference(BindGroupReferenceBase::Bindgroup1(dest, input))
    );
}

#[test]
fn index_select_along_the_first_dimension() {
    let mut dev = device();
    let dest = create_buffer_reference(&mut dev, 24);
    let input = create_buffer_reference(&mut dev, 48);
    let index = create_buffer_reference(&mut dev, 8);
    let lay_input = Layout::contiguous(vec![4, 3]);
    let lay_index = Layout::contiguous(vec![2]);
    assert_eq!(
        queue_index_select(&mut dev, dest, input, index, DType::F32, &lay_input, &lay_index, 0),
        Ok(())
    );
    assert_eq!(
        dev.command_queue.get_meta(),
        &vec![1, 3, 1, 3, 3, 2, 0, 12, 4, 3, 3, 1, 1, 0, 2, 2, 1]
    );
    let q = dev.command_queue.command_queue[0];
    assert_eq!((q.x, q.y, q.z), (1, 1, 1));
    assert_eq!(q.workload_size, 6);
    assert_eq!(
        q.pipeline,
        PipelineType(
            Pipelines::IndexSelect(KernelDType::F32, IndexSelectFunctions::IndexSelect),
            0,
            OpIsInplaceable::new()
        )
    );
    assert_eq!(
        q.bindgroup,
        DispatchedBindgroup::BindgroupReference(BindGroupReferenceBase::Bindgroup2(
            dest, input, index
        ))
    );
}

#[test]
fn index_select_along_the_second_dimension() {
    let mut dev = device();
    let dest = create_buffer_reference(&mut dev, 4);
    let input = create_buffer_reference(&mut dev, 4);
    let index = create_buffer_reference(&mut dev, 4);
    let lay_input = Layout::contiguous(vec![4, 3]);
    let lay_index = Layout::contiguous(vec![20]);
    assert_eq!(
        queue_index_select(&mut dev, dest, input, index, DType::U32, &lay_input, &lay_index, 1),
        Ok(())
    );
    let meta = dev.command_queue.get_meta();
    assert_eq!(meta[0..5], [3, 1, 20, 1, 4]);
    let q = dev.command_queue.command_queue[0];
    assert_eq!((q.x, q.y, q.z), (1, 3, 1));
    assert_eq!(q.workload_size, 80);
    assert_eq!(
        queue_index_select(&mut dev, dest, input, index, DType::BF16, &lay_input, &lay_index, 1),
        Err(WebGpuError::UnsupportedDType(DType::BF16))
    );
    assert_eq!(dev.command_queue.command_queue.len(), 1);
}

#[test]
fn product_of_a_range() {
    let values = vec![2, 3, 5, 7];
    assert_eq!(product_of(&values, 0, 4), 210);
    assert_eq!(product_of(&values, 1, 3), 15);
    assert_eq!(product_of(&values, 2, 2), 1);
    assert_eq!(product_of(&vec![], 0, 0), 1);
}

#[test]
fn copy3d_queues_one_dispatch_with_the_source_strides_as_constants() {
    let mut dev = device();
    let dest = create_buffer_reference(&mut dev, 96);
    let input = create_buffer_reference(&mut dev, 104);
    assert_eq!(
        queue_copy3d(
            &mut dev,
            dest,
            input,
            DType::F32,
            &vec![20, 5, 1],
            2,
            (2, 3, 4),
            &vec![12, 4, 1]
        ),
        Ok(())
    );
    assert_eq!(dev.command_queue.get_meta(), &vec![4, 3, 1, 4, 12, 2]);
    assert_eq!(
        dev.command_queue.constants_of(0),
        &vec![(Constants::Constv0, 1), (Constants::Constv1, 5), (Constants::Constv2, 20)]
    );
    let q = dev.command_queue.command_queue[0];
    assert_eq!((q.x, q.y, q.z), (1, 1, 2));
    assert_eq!(q.workload_size, 24);
    assert_eq!(q.pipeline.0, Pipelines::Copy(KernelDType::F32, CopyFunctions::Copy3d));
    assert_eq!(
        q.bindgroup,
        DispatchedBindgroup::BindgroupReference(BindGroupReferenceBase::Bindgroup1(dest, input))
    );
    assert_eq!(
        queue_copy3d_padded(
            &mut dev,
            dest,
            input,
            DType::F32,
            &vec![1],
            0,
            (1, 17, 33),
            &vec![1]
        ),
        Ok(())
    );
    let q = dev.command_queue.command_queue[1];
    assert_eq!((q.x, q.y, q.z), (3, 2, 1));
    assert_eq!(q.meta, 64);
    assert_eq!(q.pipeline.0, Pipelines::Copy(KernelDType::F32, CopyFunctions::Copy3dPadded));
    assert_eq!(dev.command_queue.get_meta()[64..], [33, 17, 1, 1, 1, 0]);
    assert_eq!(
        queue_copy3d(&mut dev, dest, input, DType::F64, &vec![1], 0, (1, 1, 1), &vec![1]),
        Err(WebGpuError::UnsupportedDType(DType::F64))
    );
    assert_eq!(dev.command_queue.command_queue.len(), 2);
}
