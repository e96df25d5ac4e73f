//! Queueing nearest-neighbour upsampling.
use vstd::prelude::*;
use crate::device::begin_dispatch;
use crate::device::finish_dispatch;
use crate::device::has_meta_room;
use crate::device::queued;
use crate::device::WgpuDevice;
use crate::dtype::get_dtype;
use crate::dtype::DType;
use crate::dtype::KernelDType;
use crate::dtype::WebGpuError;
use crate::kernels::Constants;
use crate::kernels::Pipelines;
use crate::kernels::UpsampleFunctions;
use crate::layout::low_word;
use crate::layout::to_word;
use crate::layout::Layout;
use crate::matmul::not_inplaceable;
use crate::queue::create_bind_group_input1;
use crate::queue::general_constants;
use crate::queue::BindGroupReferenceBase;
use crate::queue::BufferReferenceId;
use crate::queue::OpIsInplaceable;
use crate::queue::MAX_DISPATCH_SIZE;

verus! {

/// The parameters of an upsampling along one dimension to `target_size` elements: the
/// target size, the three extents of the input, its start offset and its strides, then
/// the strides of the result along the batch and along the channels.
pub open spec fn upsample1d_words(layout: Layout, target_size: usize) -> Seq<u32> {
    seq![
        low_word(target_size as int),
        low_word(layout.shape@[0] as int),
        low_word(layout.shape@[1] as int),
        low_word(layout.shape@[2] as int),
        low_word(layout.start_offset as int),
        low_word(layout.stride@[0] as int),
        low_word(layout.stride@[1] as int),
        low_word(layout.stride@[2] as int),
        low_word(layout.shape@[1] * target_size),
        low_word(target_size as int),
    ]
}

/// What an upsampling along one dimension asks of its operands, once the input has three
/// dimensions: room in the blob, known buffers, workgroup counts within the dispatch
/// limit, and sizes that can be counted.
pub open spec fn upsample1d_fits(
    dev: WgpuDevice,
    buffer_dest: BufferReferenceId,
    buffer_input1: BufferReferenceId,
    layout: Layout,
    target_size: usize,
) -> bool {
    &&& has_meta_room(dev)
    &&& buffer_dest < dev.cache.references@.len()
    &&& buffer_input1 < dev.cache.references@.len()
    &&& layout.shape@.len() == 3 ==> {
        &&& (low_word(target_size as int) + 63) / 63 <= MAX_DISPATCH_SIZE
        &&& low_word(layout.shape@[1] as int) <= MAX_DISPATCH_SIZE
        &&& low_word(layout.shape@[0] as int) <= MAX_DISPATCH_SIZE
        &&& layout.shape@[1] * target_size <= usize::MAX
        &&& target_size * layout.shape@[0] <= usize::MAX
        &&& target_size * layout.shape@[0] * layout.shape@[1] <= usize::MAX
    }
}

/// Queues the upsampling of a tensor of batch, channels and length to `target_size`
/// elements along the length: workgroups along the target length, one row of them for
/// each channel and one layer for each tensor of the batch. An input of another rank is
/// rejected, then an element type without kernels; in both cases nothing changes.
pub fn queue_upsample1d(
    dev: &mut WgpuDevice,
    buffer_dest: BufferReferenceId,
    buffer_input1: BufferReferenceId,
    layout: &Layout,
    dtype: DType,
    target_size: usize,
) -> (r: Result<(), WebGpuError>)
    requires
        old(dev).wf(),
        layout.wf(),
        upsample1d_fits(*old(dev), buffer_dest, buffer_input1, *layout, target_size),
    ensures
        final(dev).wf(),
        layout.shape@.len() != 3 ==> r == Err::<(), WebGpuError>(
            WebGpuError::UnexpectedNumberOfDims { expected: 3, got: layout.shape@.len() as usize },
        ) && *final(dev) == *old(dev),
        layout.shape@.len() == 3 ==> match dtype.kernel_dtype() {
            Some(typ) => r is Ok && queued(
                *old(dev),
                *final(dev),
                upsample1d_words(*layout, target_size),
                Seq::<(Constants, u32)>::empty(),
                Pipelines::Upsample(typ, UpsampleFunctions::Upsample1d),
                not_inplaceable(),
                BindGroupReferenceBase::Bindgroup1(buffer_dest, buffer_input1),
                ((low_word(target_size as int) + 63) / 63) as u32,
                low_word(layout.shape@[1] as int),
                low_word(layout.shape@[0] as int),
                (target_size * layout.shape@[0] * layout.shape@[1]) as usize,
            ),
            None => r == Err::<(), WebGpuError>(WebGpuError::UnsupportedDType(dtype)) &&
                *final(dev) == *old(dev),
        },
{
    let (b, c, l) = match layout.dims3() {
        Ok(dims) => dims,
        Err(e) => {
            return Err(e);
        },
    };
    let typ: KernelDType = match get_dtype(dtype) {
        Ok(typ) => typ,
        Err(e) => {
            return Err(e);
        },
    };
    let strides: &Vec<usize> = layout.stride();
    let mut words: Vec<u32> = Vec::new();
    words.push(to_word(target_size));
    words.push(to_word(b));
    words.push(to_word(c));
    words.push(to_word(l));
    words.push(to_word(layout.start_offset()));
    words.push(to_word(strides[0]));
    words.push(to_word(strides[1]));
    words.push(to_word(strides[2]));
    words.push(to_word(c * target_size));
    words.push(to_word(target_size));
    assert(words@ =~= upsample1d_words(*layout, target_size));
    begin_dispatch(dev, &words);
    let const_vec: Vec<u32> = Vec::new();
    assert(general_constants(const_vec@) =~= Seq::<(Constants, u32)>::empty());
    finish_dispatch(
        dev,
        Pipelines::Upsample(typ, UpsampleFunctions::Upsample1d),
        const_vec,
        OpIsInplaceable::new(),
        create_bind_group_input1(buffer_dest, buffer_input1),
        (to_word(target_size) + 63) / 63,
        to_word(c),
        to_word(b),
        target_size * b * c,
    );
    Ok(())
}

/// The parameters of an upsampling along two dimensions to `target_size` elements: the
/// target sizes, the four extents of the input, its start offset and its strides, then
/// the strides of the result along the batch, the channels and the height.
pub open spec fn upsample2d_words(layout: Layout, target_size: (usize, usize)) -> Seq<u32> {
    seq![
        low_word(target_size.0 as int),
        low_word(target_size.1 as int),
        low_word(layout.shape@[0] as int),
        low_word(layout.shape@[1] as int),
        low_word(layout.shape@[2] as int),
        low_word(layout.shape@[3] as int),
        low_word(layout.start_offset as int),
        low_word(layout.stride@[0] as int),
        low_word(layout.stride@[1] as int),
        low_word(layout.stride@[2] as int),
        low_word(layout.stride@[3] as int),
        low_word(layout.shape@[1] * target_size.0 * target_size.1),
        low_word(target_size.0 * target_size.1),
        low_word(target_size.1 as int),
    ]
}

/// What an upsampling along two dimensions asks of its operands, once the input has four
/// dimensions: room in the blob, known buffers, workgroup counts within the dispatch
/// limit, and sizes that can be counted.
pub open spec fn upsample2d_fits(
    dev: WgpuDevice,
    buffer_dest: BufferReferenceId,
    buffer_input1: BufferReferenceId,
    layout: Layout,
    target_size: (usize, usize),
) -> bool {
    &&& has_meta_room(dev)
    &&& buffer_dest < dev.cache.references@.len()
    &&& buffer_input1 < dev.cache.references@.len()
    &&& layout.shape@.len() == 4 ==> {
        &&& (low_word(target_size.1 as int) + 7) / 8 <= MAX_DISPATCH_SIZE
        &&& (low_word(target_size.0 as int) + 7) / 8 <= MAX_DISPATCH_SIZE
        &&& low_word(layout.shape@[1] as int) <= MAX_DISPATCH_SIZE
        &&& layout.shape@[1] * target_size.0 <= usize::MAX
        &&& layout.shape@[1] * target_size.0 * target_size.1 <= usize::MAX
        &&& target_size.0 * target_size.1 <= usize::MAX
        &&& layout.shape@[0] * layout.shape@[1] <= usize::MAX
        &&& layout.shape@[0] * layout.shape@[1] * target_size.0 <= usize::MAX
        &&& layout.shape@[0] * layout.shape@[1] * target_size.0 * target_size.1 <= usize::MAX
    }
}

/// Queues the upsampling of a tensor of batch, channels, height and width to
/// `target_size` elements along height and width: workgroups of eight by eight over the
/// target, one layer of them for each channel. An input of another rank is rejected, then
/// an element type without kernels; in both cases nothing changes.
pub fn queue_upsample2d(
    dev: &mut WgpuDevice,
    buffer_dest: BufferReferenceId,
    buffer_input1: BufferReferenceId,
    layout: &Layout,
    dtype: DType,
    target_size: (usize, usize),
) -> (r: Result<(), WebGpuError>)
    requires
        old(dev).wf(),
        layout.wf(),
        upsample2d_fits(*old(dev), buffer_dest, buffer_input1, *layout, target_size),
    ensures
        final(dev).wf(),
        layout.shape@.len() != 4 ==> r == Err::<(), WebGpuError>(
            WebGpuError::UnexpectedNumberOfDims { expected: 4, got: layout.shape@.len() as usize },
        ) && *final(dev) == *old(dev),
        layout.shape@.len() == 4 ==> match dtype.kernel_dtype() {
            Some(typ) => r is Ok && queued(
                *old(dev),
                *final(dev),
                upsample2d_words(*layout, target_size),
                Seq::<(Constants, u32)>::empty(),
                Pipelines::Upsample(typ, UpsampleFunctions::Upsample2d),
                not_inplaceable(),
                BindGroupReferenceBase::Bindgroup1(buffer_dest, buffer_input1),
                ((low_word(target_size.1 as int) + 7) / 8) as u32,
                ((low_word(target_size.0 as int) + 7) / 8) as u32,
                low_word(layout.shape@[1] as int),
                (layout.shape@[0] * layout.shape@[1] * target_size.0 * target_size.1) as usize,
            ),
            None => r == Err::<(), WebGpuError>(WebGpuError::UnsupportedDType(dtype)) &&
                *final(dev) == *old(dev),
        },
{
    let (b, c, h, w) = match layout.dims4() {
        Ok(dims) => dims,
        Err(e) => {
            return Err(e);
        },
    };
    let typ: KernelDType = match get_dtype(dtype) {
        Ok(typ) => typ,
        Err(e) => {
            return Err(e);
        },
    };
    let strides: &Vec<usize> = layout.stride();
    let mut words: Vec<u32> = Vec::new();
    words.push(to_word(target_size.0));
    words.push(to_word(target_size.1));
    words.push(to_word(b));
    words.push(to_word(c));
    words.push(to_word(h));
    words.push(to_word(w));
    words.push(to_word(layout.start_offset()));
    words.push(to_word(strides[0]));
    words.push(to_word(strides[1]));
    words.push(to_word(strides[2]));
    words.push(to_word(strides[3]));
    words.push(to_word(c * target_size.0 * target_size.1));
    words.push(to_word(target_size.0 * target_size.1));
    words.push(to_word(target_size.1));
    assert(words@ =~= upsample2d_words(*layout, target_size));
    begin_dispatch(dev, &words);
    let const_vec: Vec<u32> = Vec::new();
    assert(general_constants(const_vec@) =~= Seq::<(Constants, u32)>::empty());
    finish_dispatch(
        dev,
        Pipelines::Upsample(typ, UpsampleFunctions::Upsample2d),
        const_vec,
        OpIsInplaceable::new(),
        create_bind_group_input1(buffer_dest, buffer_input1),
        (to_word(target_size.1) + 7) / 8,
        (to_word(target_size.0) + 7) / 8,
        to_word(c),
        b * c * target_size.0 * target_size.1,
    );
    Ok(())
}

} // verus!
