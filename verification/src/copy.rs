//! Queueing copies between buffers of up to three dimensions.
use vstd::prelude::*;
use crate::device::begin_dispatch;
use crate::device::dispatched;
use crate::device::finish_dispatch;
use crate::device::has_meta_room;
use crate::device::unchanged_but_queue;
use crate::device::QueueView;
use crate::device::WgpuDevice;
use crate::dtype::get_dtype;
use crate::dtype::DType;
use crate::dtype::KernelDType;
use crate::dtype::WebGpuError;
use crate::kernels::CopyFunctions;
use crate::kernels::Pipelines;
use crate::layout::low_word;
use crate::layout::to_word;
use crate::matmul::get_stride_from_back;
use crate::matmul::not_inplaceable;
use crate::matmul::stride_from_back;
use crate::queue::create_bind_group_input1;
use crate::queue::general_constants;
use crate::queue::BindGroupReferenceBase;
use crate::queue::BufferReferenceId;
use crate::queue::OpIsInplaceable;
use crate::queue::MAX_DISPATCH_SIZE;

verus! {

/// The parameters of a copy of three dimensions: the two inner extents of the source,
/// the three innermost strides of the destination, and the start offset of the source.
pub open spec fn copy3d_words(
    input_shape: (u32, u32, u32),
    input_start_offset: usize,
    dest_stride: Seq<usize>,
) -> Seq<u32> {
    seq![
        input_shape.2,
        input_shape.1,
        low_word(stride_from_back(dest_stride, 0) as int),
        low_word(stride_from_back(dest_stride, 1) as int),
        low_word(stride_from_back(dest_stride, 2) as int),
        low_word(input_start_offset as int),
    ]
}

/// The values of the general-purpose constants of a copy of three dimensions: the three
/// innermost strides of the source.
pub open spec fn copy3d_constants(input_stride: Seq<usize>) -> Seq<u32> {
    seq![
        low_word(stride_from_back(input_stride, 0) as int),
        low_word(stride_from_back(input_stride, 1) as int),
        low_word(stride_from_back(input_stride, 2) as int),
    ]
}

/// The queue after a copy of three dimensions with the given kernel was queued: one
/// invocation for each element of the source, in workgroups of sixteen by sixteen over the
/// two inner extents, one layer of workgroups for each outermost index.
pub open spec fn copy3d_dispatched(
    queue: QueueView,
    alignment_words: int,
    kernel: Pipelines,
    buffer_dest: BufferReferenceId,
    buffer_input: BufferReferenceId,
    input_stride: Seq<usize>,
    input_start_offset: usize,
    input_shape: (u32, u32, u32),
    dest_stride: Seq<usize>,
) -> QueueView {
    dispatched(
        queue,
        alignment_words,
        copy3d_words(input_shape, input_start_offset, dest_stride),
        general_constants(copy3d_constants(input_stride)),
        kernel,
        not_inplaceable(),
        BindGroupReferenceBase::Bindgroup1(buffer_dest, buffer_input),
        ((input_shape.2 + 15) / 16) as u32,
        ((input_shape.1 + 15) / 16) as u32,
        input_shape.0,
        (input_shape.0 * input_shape.1 * input_shape.2) as usize,
    )
}

/// What a copy of three dimensions asks of its operands: known buffers, workgroup counts
/// within the dispatch limit, and a number of elements that can be counted.
pub open spec fn copy3d_fits(
    dev: WgpuDevice,
    buffer_dest: BufferReferenceId,
    buffer_input: BufferReferenceId,
    input_shape: (u32, u32, u32),
) -> bool {
    &&& buffer_dest < dev.cache.references@.len()
    &&& buffer_input < dev.cache.references@.len()
    &&& (input_shape.2 + 15) / 16 <= MAX_DISPATCH_SIZE
    &&& (input_shape.1 + 15) / 16 <= MAX_DISPATCH_SIZE
    &&& input_shape.0 <= MAX_DISPATCH_SIZE
    &&& input_shape.0 * input_shape.1 <= usize::MAX
    &&& input_shape.0 * input_shape.1 * input_shape.2 <= usize::MAX
}

fn queue_copy3d_with(
    dev: &mut WgpuDevice,
    kernel: Pipelines,
    buffer_dest: BufferReferenceId,
    buffer_input: BufferReferenceId,
    input_stride: &Vec<usize>,
    input_start_offset: usize,
    input_shape: (u32, u32, u32),
    dest_stride: &Vec<usize>,
)
    requires
        old(dev).wf(),
        has_meta_room(*old(dev)),
        copy3d_fits(*old(dev), buffer_dest, buffer_input, input_shape),
    ensures
        final(dev).wf(),
        final(dev).queue() == copy3d_dispatched(
            old(dev).queue(),
            old(dev).device_limits.alignment_words(),
            kernel,
            buffer_dest,
            buffer_input,
            input_stride@,
            input_start_offset,
            input_shape,
            dest_stride@,
        ),
        final(dev).command_queue.meta().len() < old(dev).command_queue.meta().len()
            + old(dev).device_limits.alignment_words() + 6,
        unchanged_but_queue(*old(dev), *final(dev)),
{
    let mut words: Vec<u32> = Vec::new();
    words.push(input_shape.2);
    words.push(input_shape.1);
    words.push(to_word(get_stride_from_back(dest_stride, 0)));
    words.push(to_word(get_stride_from_back(dest_stride, 1)));
    words.push(to_word(get_stride_from_back(dest_stride, 2)));
    words.push(to_word(input_start_offset));
    assert(words@ =~= copy3d_words(input_shape, input_start_offset, dest_stride@));
    let mut const_vec: Vec<u32> = Vec::new();
    const_vec.push(to_word(get_stride_from_back(input_stride, 0)));
    const_vec.push(to_word(get_stride_from_back(input_stride, 1)));
    const_vec.push(to_word(get_stride_from_back(input_stride, 2)));
    assert(const_vec@ =~= copy3d_constants(input_stride@));
    begin_dispatch(dev, &words);
    finish_dispatch(
        dev,
        kernel,
        const_vec,
        OpIsInplaceable::new(),
        create_bind_group_input1(buffer_dest, buffer_input),
        (input_shape.2 + 15) / 16,
        (input_shape.1 + 15) / 16,
        input_shape.0,
        input_shape.0 as usize * input_shape.1 as usize * input_shape.2 as usize,
    );
}

/// Queues a copy of a tensor of three dimensions into a destination of the same extents.
/// An element type without kernels is rejected, and nothing changes.
pub fn queue_copy3d(
    dev: &mut WgpuDevice,
    buffer_dest: BufferReferenceId,
    buffer_input: BufferReferenceId,
    dtype: DType,
    input_stride: &Vec<usize>,
    input_start_offset: usize,
    input_shape: (u32, u32, u32),
    dest_stride: &Vec<usize>,
) -> (r: Result<(), WebGpuError>)
    requires
        old(dev).wf(),
        has_meta_room(*old(dev)),
        copy3d_fits(*old(dev), buffer_dest, buffer_input, input_shape),
    ensures
        final(dev).wf(),
        match dtype.kernel_dtype() {
            Some(typ) => r is Ok && final(dev).queue() == copy3d_dispatched(
                old(dev).queue(),
                old(dev).device_limits.alignment_words(),
                Pipelines::Copy(typ, CopyFunctions::Copy3d),
                buffer_dest,
                buffer_input,
                input_stride@,
                input_start_offset,
                input_shape,
                dest_stride@,
            ) && unchanged_but_queue(*old(dev), *final(dev)),
            None => r == Err::<(), WebGpuError>(WebGpuError::UnsupportedDType(dtype)) &&
                *final(dev) == *old(dev),
        },
        final(dev).command_queue.meta().len() < old(dev).command_queue.meta().len()
            + old(dev).device_limits.alignment_words() + 6,
{
    let typ: KernelDType = match get_dtype(dtype) {
        Ok(typ) => typ,
        Err(e) => {
            return Err(e);
        },
    };
    queue_copy3d_with(
        dev,
        Pipelines::Copy(typ, CopyFunctions::Copy3d),
        buffer_dest,
        buffer_input,
        input_stride,
        input_start_offset,
        input_shape,
        dest_stride,
    );
    Ok(())
}

/// Queues a copy of a tensor of three dimensions into a destination with larger extents,
/// which the kernel fills up with zeros. An element type without kernels is rejected, and
/// nothing changes.
pub fn queue_copy3d_padded(
    dev: &mut WgpuDevice,
    buffer_dest: BufferReferenceId,
    buffer_input: BufferReferenceId,
    dtype: DType,
    input_stride: &Vec<usize>,
    input_start_offset: usize,
    input_shape: (u32, u32, u32),
    dest_stride: &Vec<usize>,
) -> (r: Result<(), WebGpuError>)
    requires
        old(dev).wf(),
        has_meta_room(*old(dev)),
        copy3d_fits(*old(dev), buffer_dest, buffer_input, input_shape),
    ensures
        final(dev).wf(),
        match dtype.kernel_dtype() {
            Some(typ) => r is Ok && final(dev).queue() == copy3d_dispatched(
                old(dev).queue(),
                old(dev).device_limits.alignment_words(),
                Pipelines::Copy(typ, CopyFunctions::Copy3dPadded),
                buffer_dest,
                buffer_input,
                input_stride@,
                input_start_offset,
                input_shape,
                dest_stride@,
            ) && unchanged_but_queue(*old(dev), *final(dev)),
            None => r == Err::<(), WebGpuError>(WebGpuError::UnsupportedDType(dtype)) &&
                *final(dev) == *old(dev),
        },
        final(dev).command_queue.meta().len() < old(dev).command_queue.meta().len()
            + old(dev).device_limits.alignment_words() + 6,
{
    let typ: KernelDType = match get_dtype(dtype) {
        Ok(typ) => typ,
        Err(e) => {
            return Err(e);
        },
    };
    queue_copy3d_with(
        dev,
        Pipelines::Copy(typ, CopyFunctions::Copy3dPadded),
        buffer_dest,
        buffer_input,
        input_stride,
        input_start_offset,
        input_shape,
        dest_stride,
    );
    Ok(())
}

} // verus!
