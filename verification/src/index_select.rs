//! Queueing index selection along one dimension.
use vstd::prelude::*;
use crate::device::begin_dispatch;
use crate::device::finish_dispatch;
use crate::device::has_meta_room;
use crate::device::queued;
use crate::device::WgpuDevice;
use crate::dtype::get_dtype;
use crate::dtype::DType;
use crate::dtype::KernelDType;
use crate::dtype::WebGpuError;
use crate::kernels::Constants;
use crate::kernels::IndexSelectFunctions;
use crate::kernels::Pipelines;
use crate::layout::low_word;
use crate::layout::to_word;
use crate::layout::trailing_count;
use crate::layout::Layout;
use crate::matmul::not_inplaceable;
use crate::meta::layout_words;
use crate::meta::MetaArray;
use crate::queue::create_bind_group_input2;
use crate::queue::general_constants;
use crate::queue::BindGroupReferenceBase;
use crate::queue::BufferReferenceId;
use crate::queue::OpIsInplaceable;
use crate::queue::MAX_DISPATCH_SIZE;

verus! {

/// The product of the counts from place `from` up to place `to`; one where there is none.
pub open spec fn range_product(values: Seq<usize>, from: int, to: int) -> nat
    decreases to - from,
{
    if to <= from {
        1
    } else {
        range_product(values, from, to - 1) * values[to - 1] as nat
    }
}

/// Whether the product of the counts from place `from` up to place `to` can be taken
/// from the left in `usize` steps.
pub open spec fn range_product_fits(values: Seq<usize>, from: int, to: int) -> bool {
    forall|t: int| from <= t <= to ==> #[trigger] range_product(values, from, t) <= usize::MAX
}

/// The product of the counts from place `from` up to place `to`.
pub fn product_of(values: &Vec<usize>, from: usize, to: usize) -> (r: usize)
    requires
        from <= to <= values@.len(),
        range_product_fits(values@, from as int, to as int),
    ensures
        r == range_product(values@, from as int, to as int),
{
    let mut product: usize = 1;
    let mut t: usize = from;
    while t < to
        invariant
            from <= t <= to <= values@.len(),
            product == range_product(values@, from as int, t as int),
            range_product_fits(values@, from as int, to as int),
        decreases to - t,
    {
        assert(range_product(values@, from as int, t + 1) <= usize::MAX);
        product = product * values[t];
        t = t + 1;
    }
    product
}

/// The shape of the result of an index selection: the shape of the input, with
/// `index_length` in the place of the selected dimension.
pub open spec fn selected_shape(shape: Seq<usize>, dim: int, index_length: usize) -> Seq<usize> {
    shape.update(dim, index_length)
}

/// The strides of a tensor of the given shape that lies in row-major order without gaps.
pub open spec fn contiguous_strides(shape: Seq<usize>) -> Seq<usize> {
    Seq::new(shape.len(), |i: int| trailing_count(shape, i + 1) as usize)
}

/// The number of elements that one index selects: the elements of the input without the
/// selected dimension, as a 32-bit word.
pub open spec fn selected_length(lay_input: Layout, dim: int) -> u32 {
    low_word(lay_input.spec_elem_count() as int / lay_input.shape@[dim] as int)
}

/// The parameters of an index selection: the strides of input and result before and
/// behind the selected dimension, the number of elements that one index selects, then
/// the full layouts of the input and of the indices.
pub open spec fn index_select_words(lay_input: Layout, lay_index: Layout, dim: int) -> Seq<u32> {
    let new_shape = selected_shape(
        lay_input.shape@,
        dim,
        lay_index.spec_elem_count() as usize,
    );
    let stride_y = low_word(range_product(new_shape, dim + 1, new_shape.len() as int) as int);
    seq![
        low_word(range_product(lay_input.stride@, 0, dim) as int),
        stride_y,
        low_word(range_product(contiguous_strides(new_shape), 0, dim) as int),
        stride_y,
        selected_length(lay_input, dim),
    ] + layout_words(lay_input) + layout_words(lay_index)
}

/// What an index selection asks of its operands: well-formed layouts, a selected
/// dimension that exists and is not empty, room in the blob, known buffers, products of
/// extents and strides that can be counted, and workgroup counts within the dispatch
/// limit.
pub open spec fn index_select_fits(
    dev: WgpuDevice,
    buffer_dest: BufferReferenceId,
    buffer_input: BufferReferenceId,
    buffer_index: BufferReferenceId,
    lay_input: Layout,
    lay_index: Layout,
    dim: int,
) -> bool {
    let index_length = lay_index.spec_elem_count() as usize;
    let new_shape = selected_shape(lay_input.shape@, dim, index_length);
    let length = selected_length(lay_input, dim);
    &&& lay_input.wf()
    &&& lay_index.wf()
    &&& 0 <= dim < lay_input.shape@.len()
    &&& lay_input.shape@[dim] != 0
    &&& has_meta_room(dev)
    &&& buffer_dest < dev.cache.references@.len()
    &&& buffer_input < dev.cache.references@.len()
    &&& buffer_index < dev.cache.references@.len()
    &&& forall|i: int| 0 <= i <= new_shape.len() ==> trailing_count(new_shape, i) <= usize::MAX
    &&& range_product_fits(new_shape, dim + 1, new_shape.len() as int)
    &&& range_product_fits(contiguous_strides(new_shape), 0, dim)
    &&& range_product_fits(lay_input.stride@, 0, dim)
    &&& (length + 7) / 8 <= MAX_DISPATCH_SIZE
    &&& index_length + 7 <= usize::MAX
    &&& (index_length + 7) / 8 <= MAX_DISPATCH_SIZE
    &&& length * index_length <= usize::MAX
}

/// A copy of `shape` with `value` at place `dim`.
fn with_dim(shape: &Vec<usize>, dim: usize, value: usize) -> (r: Vec<usize>)
    requires
        dim < shape@.len(),
    ensures
        r@ == shape@.update(dim as int, value),
{
    let mut r: Vec<usize> = Vec::new();
    let mut i: usize = 0;
    while i < shape.len()
        invariant
            i <= shape@.len(),
            dim < shape@.len(),
            r@.len() == i,
            forall|j: int| 0 <= j < i ==> r@[j] == shape@.update(dim as int, value)[j],
        decreases shape@.len() - i,
    {
        r.push(
            if i == dim {
                value
            } else {
                shape[i]
            },
        );
        i = i + 1;
    }
    assert(r@ =~= shape@.update(dim as int, value));
    r
}

/// Queues the selection of the entries of the input along dimension `dim` that the
/// indices name: workgroups of eight by eight over the elements that one index selects
/// and over the indices. An element type without kernels is rejected, and nothing
/// changes.
pub fn queue_index_select(
    dev: &mut WgpuDevice,
    buffer_dest: BufferReferenceId,
    buffer_input: BufferReferenceId,
    buffer_index: BufferReferenceId,
    input_dtype: DType,
    lay_input: &Layout,
    lay_index: &Layout,
    dim: usize,
) -> (r: Result<(), WebGpuError>)
    requires
        old(dev).wf(),
        index_select_fits(
            *old(dev),
            buffer_dest,
            buffer_input,
            buffer_index,
            *lay_input,
            *lay_index,
            dim as int,
        ),
    ensures
        final(dev).wf(),
        match input_dtype.kernel_dtype() {
            Some(typ) => r is Ok && queued(
                *old(dev),
                *final(dev),
                index_select_words(*lay_input, *lay_index, dim as int),
                Seq::<(Constants, u32)>::empty(),
                Pipelines::IndexSelect(typ, IndexSelectFunctions::IndexSelect),
                not_inplaceable(),
                BindGroupReferenceBase::Bindgroup2(buffer_dest, buffer_input, buffer_index),
                ((selected_length(*lay_input, dim as int) + 7) / 8) as u32,
                low_word((lay_index.spec_elem_count() + 7) as int / 8),
                1,
                (selected_length(*lay_input, dim as int) * lay_index.spec_elem_count()) as usize,
            ),
            None => r == Err::<(), WebGpuError>(WebGpuError::UnsupportedDType(input_dtype))
                && *final(dev) == *old(dev),
        },
{
    let typ: KernelDType = match get_dtype(input_dtype) {
        Ok(typ) => typ,
        Err(e) => {
            return Err(e);
        },
    };
    let index_length: usize = lay_index.elem_count();
    let length: u32 = to_word(lay_input.elem_count() / lay_input.shape[dim]);
    let new_shape: Vec<usize> = with_dim(&lay_input.shape, dim, index_length);
    let rank: usize = new_shape.len();
    let output_stride_y: u32 = to_word(product_of(&new_shape, dim + 1, rank));
    let new_layout: Layout = Layout::contiguous(new_shape);
    proof {
        assert(new_layout.stride@ =~= contiguous_strides(new_layout.shape@));
    }
    let input_stride_y: u32 = output_stride_y;
    let output_stride_x: u32 = to_word(product_of(&new_layout.stride, 0, dim));
    let input_stride_x: u32 = to_word(product_of(&lay_input.stride, 0, dim));
    let mut meta: MetaArray = MetaArray::new(0);
    meta.add(input_stride_x);
    meta.add(input_stride_y);
    meta.add(output_stride_x);
    meta.add(output_stride_y);
    meta.add(length);
    meta.add_layout(lay_input);
    meta.add_layout(lay_index);
    assert(meta.0@ =~= index_select_words(*lay_input, *lay_index, dim as int));
    begin_dispatch(dev, &meta.0);
    let const_vec: Vec<u32> = Vec::new();
    assert(general_constants(const_vec@) =~= Seq::<(Constants, u32)>::empty());
    finish_dispatch(
        dev,
        Pipelines::IndexSelect(typ, IndexSelectFunctions::IndexSelect),
        const_vec,
        OpIsInplaceable::new(),
        create_bind_group_input2(buffer_dest, buffer_input, buffer_index),
        (length + 7) / 8,
        to_word((index_length + 7) / 8),
        1,
        length as usize * index_length,
    );
    Ok(())
}

} // verus!
