use gpu_dispatch::device::DeviceLimits;
use gpu_dispatch::device::MatmulAlgorithm;
use gpu_dispatch::device::WgpuDevice;
use gpu_dispatch::dtype::DType;
use gpu_dispatch::dtype::KernelDType;
use gpu_dispatch::dtype::WebGpuError;
use gpu_dispatch::flush::flush_gpu_command;
use gpu_dispatch::kernels::Constants;
use gpu_dispatch::kernels::CopyFunctions;
use gpu_dispatch::kernels::MatmulFunctions;
use gpu_dispatch::kernels::Pipelines;
use gpu_dispatch::layout::Layout;
use gpu_dispatch::matmul::queue_matmul5_buffer;
use gpu_dispatch::matmul::queue_matmul7_buffer;
use gpu_dispatch::matmul::queue_matmul_buffer;
use gpu_dispatch::matmul::queue_matmul_buffer1;
use gpu_dispatch::matmul::queue_matmul_buffer1b;
use gpu_dispatch::matmul::queue_matmul_generic;
use gpu_dispatch::queue::BindGroupReferenceBase;
use gpu_dispatch::queue::DispatchedBindgroup;
use gpu_dispatch::queue::MlQueueDispatch;
use gpu_dispatch::storage::create_buffer_reference;
use gpu_dispatch::storage::create_buffer_init;
use gpu_dispatch::storage::hold_buffer;

fn device() -> WgpuDevice {
    WgpuDevice::new(DeviceLimits { min_storage_buffer_offset_alignment: 256 }, 4096)
}

/// The tiles (rows, columns, steps) and the kernel of an algorithm; none for the kernels
/// that take the matrices as they are.
fn tiles(alg: MatmulAlgorithm) -> Option<(u32, u32, u32, MatmulFunctions)> {
    match alg {
        MatmulAlgorithm::Matmul7 | MatmulAlgorithm::Matmul1 => None,
        MatmulAlgorithm::Matmul5 => Some((16, 16, 16, MatmulFunctions::Matmul5)),
        MatmulAlgorithm::Matmul5_32_32 => Some((32, 32, 16, MatmulFunctions::Matmul5Tile32x32)),
        MatmulAlgorithm::Matuml5_64_64 => Some((64, 64, 16, MatmulFunctions::Matmul5Tile64x64)),
        MatmulAlgorithm::Matmul5_128_128 => {
            Some((128, 128, 16, MatmulFunctions::Matmul5Tile128x128))
        }
        MatmulAlgorithm::Matmul5_64_64_8_8 => {
            Some((64, 64, 16, MatmulFunctions::Matmul5Tile64x64Vec8x8))
        }
        MatmulAlgorithm::Matmul5_16_64 => Some((16, 64, 16, MatmulFunctions::Matmul5Tile16x64)),
    }
}

fn round_up(value: u32, tile: u32) -> u32 {
    (value + tile - 1) / tile * tile
}

fn from_back(stride: &[usize], k: usize) -> usize {
    if k < stride.len() {
        stride[stride.len() - 1 - k]
    } else {
        1
    }
}

/// Queues one multiplication of a tensor on the device by another, flushes, and checks
/// what was queued and what the flush made of it.
fn check_matmul(
    dev: &mut WgpuDevice,
    alg: MatmulAlgorithm,
    (b, m, n, k): (u32, u32, u32, u32),
    lhs: &Layout,
    rhs: &Layout,
) {
    dev.matmul_alg = alg;
    let lhs_words = vec![0u32; (lhs.start_offset + (b * m * k) as usize).max(1)];
    let rhs_words = vec![0u32; (rhs.start_offset + (b * k * n) as usize).max(1)];
    let input1 = create_buffer_init(dev, &lhs_words).buffer;
    let input2 = create_buffer_init(dev, &rhs_words).buffer;
    let dest = create_buffer_reference(dev, (b * m * n) as u64 * 4);
    for buffer in [input1, input2, dest] {
        hold_buffer(dev, buffer);
    }
    let references_before = dev.cache.references.len();
    let queued_before = dev.command_queue.command_queue.len();
    assert_eq!(queued_before, 0);

    let result = queue_matmul_buffer(dev, dest, input1, input2, b, m, n, k, lhs, rhs, DType::F32);

    assert_eq!(result, Ok(()));
    let records: Vec<MlQueueDispatch> = dev.command_queue.command_queue.clone();
    let workload = k as usize * m as usize * n as usize;
    match tiles(alg) {
        None => {
            assert_eq!(records.len(), 1);
            assert_eq!(dev.cache.references.len(), references_before);
            let q = records[0];
            assert_eq!((q.x, q.y, q.z), ((n + 15) / 16, (m + 15) / 16, b));
            assert_eq!(q.workload_size, workload);
            assert_eq!(
                q.bindgroup,
                DispatchedBindgroup::BindgroupReference(BindGroupReferenceBase::Bindgroup2(
                    dest, input1, input2
                ))
            );
            let words = &dev.command_queue.get_meta()[q.meta as usize..];
            if alg == MatmulAlgorithm::Matmul1 {
                assert_eq!(q.pipeline.0, Pipelines::Matmul(KernelDType::F32, MatmulFunctions::Matmul1));
                assert_eq!(
                    words,
                    &[
                        b,
                        m,
                        k,
                        n,
                        from_back(&lhs.stride, 0) as u32,
                        from_back(&lhs.stride, 1) as u32,
                        from_back(&lhs.stride, 2) as u32,
                        lhs.start_offset as u32,
                        from_back(&rhs.stride, 0) as u32,
                        from_back(&rhs.stride, 1) as u32,
                        from_back(&rhs.stride, 2) as u32,
                        rhs.start_offset as u32
                    ]
                );
                assert!(dev.command_queue.constants_of(q.pipeline.1).is_empty());
            } else {
                assert_eq!(q.pipeline.0, Pipelines::Matmul(KernelDType::F32, MatmulFunctions::Matmul7));
                assert_eq!(
                    words,
                    &[
                        b,
                        m,
                        k,
                        n,
                        from_back(&lhs.stride, 2) as u32,
                        lhs.start_offset as u32,
                        from_back(&rhs.stride, 2) as u32,
                        rhs.start_offset as u32
                    ]
                );
                assert_eq!(
                    dev.command_queue.constants_of(q.pipeline.1),
                    &vec![
                        (Constants::Constv0, from_back(&lhs.stride, 0) as u32),
                        (Constants::Constv1, from_back(&lhs.stride, 1) as u32),
                        (Constants::Constv2, from_back(&rhs.stride, 0) as u32),
                        (Constants::Constv3, from_back(&rhs.stride, 1) as u32)
                    ]
                );
            }
        }
        Some((m_tile, n_tile, k_tile, function)) => {
            let (new_m, new_n, new_k) =
                (round_up(m, m_tile), round_up(n, n_tile), round_up(k, k_tile));
            let pads1 = !(m % m_tile == 0 && k % k_tile == 0 && from_back(&lhs.stride, 0) == 1);
            let pads2 = !(n % n_tile == 0 && k % k_tile == 0 && from_back(&rhs.stride, 1) == 1);
            let pads_out = new_m != m || new_n != n;
            let extra = pads1 as usize + pads2 as usize + pads_out as usize;
            assert_eq!(records.len(), 1 + extra);
            assert_eq!(dev.cache.references.len(), references_before + extra);
            let mut next = references_before;
            let mut place = 0;
            let mut expected_input1 = input1;
            let mut expected_input2 = input2;
            if pads1 {
                let q = records[place];
                assert_eq!(
                    q.pipeline.0,
                    Pipelines::Copy(KernelDType::F32, CopyFunctions::Copy3dPadded)
                );
                assert_eq!(
                    q.bindgroup,
                    DispatchedBindgroup::BindgroupReference(BindGroupReferenceBase::Bindgroup1(
                        next, input1
                    ))
                );
                assert_eq!((q.x, q.y, q.z), ((k + 15) / 16, (m + 15) / 16, b));
                assert_eq!(dev.cache.references[next].size, (b * new_m * new_k * 4) as u64);
                expected_input1 = next;
                next += 1;
                place += 1;
            }
            if pads2 {
                let q = records[place];
                assert_eq!(
                    q.bindgroup,
                    DispatchedBindgroup::BindgroupReference(BindGroupReferenceBase::Bindgroup1(
                        next, input2
                    ))
                );
                assert_eq!((q.x, q.y, q.z), ((n + 15) / 16, (k + 15) / 16, b));
                assert_eq!(dev.cache.references[next].size, (b * new_k * new_n * 4) as u64);
                let words = &dev.command_queue.get_meta()[q.meta as usize..q.meta as usize + 6];
                assert_eq!(
                    words,
                    &[n, k, new_k, 1, new_n * new_k, rhs.start_offset as u32]
                );
                expected_input2 = next;
                next += 1;
                place += 1;
            }
            let expected_dest = if pads_out { next } else { dest };
            let q = records[place];
            assert_eq!(q.pipeline.0, Pipelines::Matmul(KernelDType::F32, function));
            assert_eq!((q.x, q.y, q.z), (new_n / n_tile, new_m / m_tile, b));
            assert_eq!(q.workload_size, workload);
            assert_eq!(
                q.bindgroup,
                DispatchedBindgroup::BindgroupReference(BindGroupReferenceBase::Bindgroup2(
                    expected_dest,
                    expected_input1,
                    expected_input2
                ))
            );
            let constants = dev.command_queue.constants_of(q.pipeline.1);
            assert_eq!(constants.len(), 5);
            assert_eq!(constants[4], (Constants::Constv4, (b != 1) as u32));
            if pads1 {
                assert_eq!(constants[0], (Constants::Constv0, 1));
                assert_eq!(constants[1], (Constants::Constv1, new_k));
            }
            if pads2 {
                assert_eq!(constants[2], (Constants::Constv2, new_k));
                assert_eq!(constants[3], (Constants::Constv3, 1));
            }
            let words = &dev.command_queue.get_meta()[q.meta as usize..q.meta as usize + 4];
            assert_eq!(words, &[b, new_m, new_k, new_n]);
            if pads_out {
                let q = records[place + 1];
                assert_eq!(q.pipeline.0, Pipelines::Copy(KernelDType::F32, CopyFunctions::Copy3d));
                assert_eq!(
                    q.bindgroup,
                    DispatchedBindgroup::BindgroupReference(BindGroupReferenceBase::Bindgroup1(
                        dest, next
                    ))
                );
                assert_eq!((q.x, q.y, q.z), ((n + 15) / 16, (m + 15) / 16, b));
                assert_eq!(dev.cache.references[next].size, (b * new_m * new_n * 4) as u64);
            }
        }
    }
    for pair in records.windows(2) {
        assert!(pair[0].meta < pair[1].meta);
    }
    for q in &records {
        assert_eq!(q.meta % 64, 0);
    }

    let plan = flush_gpu_command(dev);

    let dispatches: Vec<_> =
        plan.command_buffers.iter().flat_map(|cb| cb.dispatches.iter().copied()).collect();
    assert_eq!(dispatches.len(), records.len());
    for (d, q) in dispatches.iter().zip(&records) {
        assert_eq!((d.x, d.y, d.z), (q.x, q.y, q.z));
        assert_eq!(dev.shader.pipelines[d.pipeline].pipeline, q.pipeline);
    }
    assert!(dev.cache.references[dest].storage.is_some());
    assert!(dev.command_queue.command_queue.is_empty());
}

fn big_matmul_wgpu(
    dev: &mut WgpuDevice,
    alg: MatmulAlgorithm,
    tpa: bool,
    tpb: bool,
    use_start_offset: bool,
    tpb_batch: bool,
    tpa_batch: bool,
) {
    let b = 1usize;
    let m = 63usize;
    let n = 63usize;
    let k = 63usize;
    let start_offset = if use_start_offset { 100 } else { 0 };
    // The strides that reshaping and transposing a contiguous tensor give.
    let lhs = if tpa_batch {
        if tpa {
            Layout::new(vec![b, m, k], vec![1, k * b, b], start_offset)
        } else {
            Layout::new(vec![b, m, k], vec![1, b, m * b], start_offset)
        }
    } else if tpa {
        Layout::new(vec![b, m, k], vec![k * m, 1, m], start_offset)
    } else {
        Layout::new(vec![b, m, k], vec![m * k, k, 1], start_offset)
    };
    let rhs = if tpb_batch {
        if tpb {
            Layout::new(vec![b, k, n], vec![1, n * b, b], start_offset)
        } else {
            Layout::new(vec![b, k, n], vec![1, b, k * b], start_offset)
        }
    } else if tpb {
        Layout::new(vec![b, k, n], vec![n * k, 1, k], start_offset)
    } else {
        Layout::new(vec![b, k, n], vec![k * n, n, 1], start_offset)
    };
    check_matmul(dev, alg, (b as u32, m as u32, n as u32, k as u32), &lhs, &rhs);
}

fn matmul(dev: &mut WgpuDevice, alg: MatmulAlgorithm) {
    check_matmul(
        dev,
        alg,
        (1, 2, 2, 2),
        &Layout::contiguous(vec![2, 2]),
        &Layout::contiguous(vec![2, 2]),
    );
    check_matmul(
        dev,
        alg,
        (1, 2, 2, 1),
        &Layout::contiguous(vec![2, 1]),
        &Layout::contiguous(vec![1, 2]),
    );
    check_matmul(
        dev,
        alg,
        (1, 2, 2, 3),
        &Layout::contiguous(vec![2, 3]),
        &Layout::contiguous(vec![3, 2]),
    );
    let a = Layout::contiguous(vec![2, 2, 3]);
    let b = Layout::contiguous(vec![2, 3, 2]);
    check_matmul(dev, alg, (2, 2, 2, 3), &a, &b);
    // The same on the transposes of contiguous transposes.
    let a_tt = Layout::new(vec![2, 2, 3], vec![6, 1, 2], 0);
    assert!(!a_tt.is_contiguous());
    let b_tt = Layout::new(vec![2, 3, 2], vec![6, 1, 3], 0);
    assert!(!b_tt.is_contiguous());
    check_matmul(dev, alg, (2, 2, 2, 3), &a_tt, &b);
    check_matmul(dev, alg, (2, 2, 2, 3), &a, &b_tt);
    check_matmul(dev, alg, (2, 2, 2, 3), &a_tt, &b_tt);
}

fn broadcast_matmul(dev: &mut WgpuDevice, alg: MatmulAlgorithm) {
    // One matrix of four by five times one of five by two, for each pair of the batch.
    for _idx1 in 0..3 {
        for _idx2 in 0..6 {
            check_matmul(
                dev,
                alg,
                (1, 4, 2, 5),
                &Layout::contiguous(vec![4, 5]),
                &Layout::contiguous(vec![5, 2]),
            );
        }
    }
}

fn squeeze_mm(dev: &mut WgpuDevice, alg: MatmulAlgorithm) {
    let seq_len = 8usize;
    let x = Layout::new(vec![1, 16], vec![seq_len * 16, 1], (seq_len - 1) * 16);
    let w = Layout::new(vec![16, 32], vec![1, 16], 0);
    check_matmul(dev, alg, (1, 1, 32, 16), &x, &w);
}

fn mm_layout(dev: &mut WgpuDevice, alg: MatmulAlgorithm) {
    let a = Layout::contiguous(vec![1, 1, 4, 4]);
    let b = Layout::contiguous(vec![1, 1, 4, 2]);
    check_matmul(dev, alg, (1, 4, 2, 4), &a, &b);
    let forced = Layout::new(vec![1, 1, 4, 2], vec![8, 2, 2, 1], 0);
    check_matmul(dev, alg, (1, 4, 2, 4), &a, &forced);
}

#[test]
fn matmul_tests_test_matmul_kernels_wgpu() {
    let algs = vec![
        MatmulAlgorithm::Matmul7,
        MatmulAlgorithm::Matmul1,
        MatmulAlgorithm::Matmul5,
        MatmulAlgorithm::Matmul5_32_32,
        MatmulAlgorithm::Matuml5_64_64,
        MatmulAlgorithm::Matmul5_128_128,
        MatmulAlgorithm::Matmul5_64_64_8_8,
        MatmulAlgorithm::Matmul5_16_64,
    ];
    let mut device = device();
    for alg in algs {
        for tpa in [true, false] {
            for tpb in [true, false] {
                for use_start_offset in [true, false] {
                    for tpb_batch in [true, false] {
                        for tpa_batch in [true, false] {
                            big_matmul_wgpu(
                                &mut device,
                                alg,
                                tpa,
                                tpb,
                                use_start_offset,
                                tpb_batch,
                                tpa_batch,
                            );
                        }
                    }
                }
            }
        }
        matmul(&mut device, alg);
        broadcast_matmul(&mut device, alg);
        squeeze_mm(&mut device, alg);
        mm_layout(&mut device, alg);
    }
}

#[test]
fn matmul_of_whole_tiles_needs_no_padding() {
    let mut dev = device();
    let dest = create_buffer_reference(&mut dev, 32 * 48 * 4);
    let input1 = create_buffer_reference(&mut dev, 32 * 16 * 4);
    let input2 = create_buffer_reference(&mut dev, 16 * 48 * 4);
    let lhs = Layout::contiguous(vec![1, 32, 16]);
    // The second input must have its inner extent along the rows.
    let rhs = Layout::new(vec![1, 16, 48], vec![768, 1, 16], 5);
    assert_eq!(
        queue_matmul5_buffer(&mut dev, dest, input1, input2, 1, 32, 48, 16, &lhs, &rhs, DType::F32),
        Ok(())
    );
    assert_eq!(dev.command_queue.command_queue.len(), 1);
    assert_eq!(dev.cache.references.len(), 3);
    let q = dev.command_queue.command_queue[0];
    assert_eq!((q.x, q.y, q.z), (3, 2, 1));
    assert_eq!(dev.command_queue.get_meta(), &vec![1, 32, 16, 48, 512, 0, 768, 5]);
    assert_eq!(
        dev.command_queue.constants_of(q.pipeline.1),
        &vec![
            (Constants::Constv0, 1),
            (Constants::Constv1, 16),
            (Constants::Constv2, 16),
            (Constants::Constv3, 1),
            (Constants::Constv4, 0)
        ]
    );
    // A contiguous second input is padded, since its inner extent lies along the columns.
    let contiguous = Layout::contiguous(vec![1, 16, 48]);
    assert_eq!(
        queue_matmul_generic(
            &mut dev,
            dest,
            input1,
            input2,
            1,
            32,
            48,
            16,
            &lhs,
            &contiguous,
            DType::F32,
            16,
            16,
            16,
            MatmulFunctions::Matmul5
        ),
        Ok(())
    );
    assert_eq!(dev.command_queue.command_queue.len(), 3);
    assert_eq!(dev.cache.references.len(), 4);
    assert_eq!(dev.cache.references[3].size, 16 * 48 * 4);
}

#[test]
fn matmul_rejects_element_types_without_kernels() {
    let mut dev = device();
    let dest = create_buffer_reference(&mut dev, 16);
    let input1 = create_buffer_reference(&mut dev, 16);
    let input2 = create_buffer_reference(&mut dev, 16);
    let layout = Layout::contiguous(vec![2, 2]);
    for alg in [MatmulAlgorithm::Matmul7, MatmulAlgorithm::Matmul1, MatmulAlgorithm::Matmul5_32_32] {
        dev.matmul_alg = alg;
        assert_eq!(
            queue_matmul_buffer(
                &mut dev, dest, input1, input2, 1, 2, 2, 2, &layout, &layout, DType::F64
            ),
            Err(WebGpuError::UnsupportedDType(DType::F64))
        );
    }
    assert_eq!(
        queue_matmul_buffer1b(
            &mut dev, dest, input1, input2, 1, 2, 2, 2, &layout, &layout, DType::BF16
        ),
        Err(WebGpuError::UnsupportedDType(DType::BF16))
    );
    assert!(dev.command_queue.command_queue.is_empty());
    assert!(dev.command_queue.get_meta().is_empty());
    assert_eq!(dev.cache.references.len(), 3);
}

#[test]
fn the_plain_kernels_take_the_matrices_as_they_are() {
    let mut dev = device();
    let dest = create_buffer_reference(&mut dev, 16);
    let input1 = create_buffer_reference(&mut dev, 16);
    let input2 = create_buffer_reference(&mut dev, 16);
    let lhs = Layout::contiguous(vec![3, 40, 17]);
    let rhs = Layout::contiguous(vec![3, 17, 300]);
    assert_eq!(
        queue_matmul_buffer1(&mut dev, dest, input1, input2, 3, 40, 300, 17, &lhs, &rhs, DType::U32),
        Ok(())
    );
    assert_eq!(
        queue_matmul_buffer1b(&mut dev, dest, input1, input2, 3, 40, 300, 17, &lhs, &rhs, DType::U32),
        Ok(())
    );
    assert_eq!(
        queue_matmul7_buffer(&mut dev, dest, input1, input2, 3, 40, 300, 17, &lhs, &rhs, DType::U32),
        Ok(())
    );
    let records = &dev.command_queue.command_queue;
    let counts: Vec<(u32, u32, u32)> = records.iter().map(|q| (q.x, q.y, q.z)).collect();
    assert_eq!(counts, vec![(19, 3, 3), (2, 3, 3), (19, 3, 3)]);
    let kernels: Vec<Pipelines> = records.iter().map(|q| q.pipeline.0).collect();
    assert_eq!(
        kernels,
        vec![
            Pipelines::Matmul(KernelDType::U32, MatmulFunctions::Matmul1),
            Pipelines::Matmul(KernelDType::U32, MatmulFunctions::Matmul1End),
            Pipelines::Matmul(KernelDType::U32, MatmulFunctions::Matmul7)
        ]
    );
    assert!(records.iter().all(|q| q.workload_size == 17 * 40 * 300));
    assert_eq!(
        dev.command_queue.get_meta()[0..12],
        [3, 40, 17, 300, 1, 17, 680, 0, 1, 300, 5100, 0]
    );
}

#[test]
fn matmul_of_no_rows_queues_an_empty_grid() {
    let mut dev = device();
    let dest = create_buffer_reference(&mut dev, 4);
    let input1 = create_buffer_reference(&mut dev, 4);
    let input2 = create_buffer_reference(&mut dev, 16 * 48 * 4);
    let lhs = Layout::new(vec![1, 0, 16], vec![0, 16, 1], 0);
    let rhs = Layout::new(vec![1, 16, 48], vec![768, 1, 16], 0);
    assert_eq!(
        queue_matmul5_buffer(&mut dev, dest, input1, input2, 1, 0, 48, 16, &lhs, &rhs, DType::F32),
        Ok(())
    );
    assert_eq!(dev.command_queue.command_queue.len(), 1);
    assert_eq!(dev.cache.references.len(), 3);
    let q = dev.command_queue.command_queue[0];
    assert_eq!((q.x, q.y, q.z), (3, 0, 1));
    assert_eq!(q.workload_size, 0);
    assert_eq!(dev.command_queue.get_meta(), &vec![1, 0, 16, 48, 0, 0, 768, 0]);
}
