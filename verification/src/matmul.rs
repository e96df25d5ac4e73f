//! Queueing matrix multiplications.
use vstd::prelude::*;
use crate::buffer::BufferReference;
use crate::copy::copy3d_dispatched;
use crate::copy::copy3d_fits;
use crate::copy::queue_copy3d;
use crate::copy::queue_copy3d_padded;
use crate::device::begin_dispatch;
use crate::device::dispatched;
use crate::device::has_room_for;
use crate::device::MatmulAlgorithm;
use crate::device::QueueView;
use crate::kernels::CopyFunctions;
use crate::meta::round_to_next_divisible;
use crate::meta::round_up_spec;
use crate::device::finish_dispatch;
use crate::device::has_meta_room;
use crate::device::queued;
use crate::device::unchanged_but_queue;
use crate::device::WgpuDevice;
use crate::dtype::get_dtype;
use crate::dtype::DType;
use crate::dtype::KernelDType;
use crate::dtype::WebGpuError;
use crate::kernels::Constants;
use crate::kernels::MatmulFunctions;
use crate::kernels::Pipelines;
use crate::layout::low_word;
use crate::layout::to_word;
use crate::layout::Layout;
use crate::queue::create_bind_group_input2;
use crate::queue::general_constants;
use crate::kernels::GENERAL_CONSTANTS;
use crate::queue::BindGroupReference;
use crate::queue::BindGroupReferenceBase;
use crate::queue::BufferReferenceId;
use crate::queue::OpIsInplaceable;
use crate::queue::MAX_DISPATCH_SIZE;

verus! {

/// The stride at place `k` counted from the innermost dimension, and one where the
/// tensor has no such dimension.
pub open spec fn stride_from_back(stride: Seq<usize>, k: int) -> usize {
    if k < stride.len() {
        stride[stride.len() - 1 - k]
    } else {
        1
    }
}

/// The stride at place `k` counted from the innermost dimension.
pub fn get_stride_from_back(stride: &Vec<usize>, k: usize) -> (r: usize)
    ensures
        r == stride_from_back(stride@, k as int),
{
    if k < stride.len() {
        stride[stride.len() - 1 - k]
    } else {
        1
    }
}

/// No input of a matrix multiplication may be overwritten.
pub open spec fn not_inplaceable() -> OpIsInplaceable {
    OpIsInplaceable { input1_inplaceable: false, input2_inplaceable: false }
}

/// The parameters of the plain matrix multiplication kernels: the batch size and the
/// three extents, then for each input its three innermost strides and its start offset.
pub open spec fn matmul1_words(
    b: u32,
    m: u32,
    n: u32,
    k: u32,
    layout_input1: Layout,
    layout_input2: Layout,
) -> Seq<u32> {
    seq![
        b,
        m,
        k,
        n,
        low_word(stride_from_back(layout_input1.stride@, 0) as int),
        low_word(stride_from_back(layout_input1.stride@, 1) as int),
        low_word(stride_from_back(layout_input1.stride@, 2) as int),
        low_word(layout_input1.start_offset as int),
        low_word(stride_from_back(layout_input2.stride@, 0) as int),
        low_word(stride_from_back(layout_input2.stride@, 1) as int),
        low_word(stride_from_back(layout_input2.stride@, 2) as int),
        low_word(layout_input2.start_offset as int),
    ]
}

/// The words of [`matmul1_words`].
fn get_matmul1_words(
    b: u32,
    m: u32,
    n: u32,
    k: u32,
    layout_input1: &Layout,
    layout_input2: &Layout,
) -> (words: Vec<u32>)
    ensures
        words@ == matmul1_words(b, m, n, k, *layout_input1, *layout_input2),
{
    let mut words: Vec<u32> = Vec::new();
    words.push(b);
    words.push(m);
    words.push(k);
    words.push(n);
    words.push(to_word(get_stride_from_back(&layout_input1.stride, 0)));
    words.push(to_word(get_stride_from_back(&layout_input1.stride, 1)));
    words.push(to_word(get_stride_from_back(&layout_input1.stride, 2)));
    words.push(to_word(layout_input1.start_offset()));
    words.push(to_word(get_stride_from_back(&layout_input2.stride, 0)));
    words.push(to_word(get_stride_from_back(&layout_input2.stride, 1)));
    words.push(to_word(get_stride_from_back(&layout_input2.stride, 2)));
    words.push(to_word(layout_input2.start_offset()));
    assert(words@ =~= matmul1_words(b, m, n, k, *layout_input1, *layout_input2));
    words
}

/// Queues a matrix multiplication with the plain kernel: one invocation for each element
/// of the result, in workgroups of sixteen by sixteen, one layer of workgroups for each
/// matrix of the batch. An element type without kernels is rejected, and nothing changes.
pub fn queue_matmul_buffer1(
    dev: &mut WgpuDevice,
    buffer_dest: BufferReferenceId,
    buffer_input1: BufferReferenceId,
    buffer_input2: BufferReferenceId,
    b: u32,
    m: u32,
    n: u32,
    k: u32,
    layout_input1: &Layout,
    layout_input2: &Layout,
    dtype: DType,
) -> (r: Result<(), WebGpuError>)
    requires
        old(dev).wf(),
        has_meta_room(*old(dev)),
        buffer_dest < old(dev).cache.references@.len(),
        buffer_input1 < old(dev).cache.references@.len(),
        buffer_input2 < old(dev).cache.references@.len(),
        (n + 15) / 16 <= MAX_DISPATCH_SIZE,
        (m + 15) / 16 <= MAX_DISPATCH_SIZE,
        b <= MAX_DISPATCH_SIZE,
        k * m <= u32::MAX,
        k * m * n <= u32::MAX,
    ensures
        final(dev).wf(),
        match dtype.kernel_dtype() {
            Some(typ) => r is Ok && queued(
                *old(dev),
                *final(dev),
                matmul1_words(b, m, n, k, *layout_input1, *layout_input2),
                Seq::<(Constants, u32)>::empty(),
                Pipelines::Matmul(typ, MatmulFunctions::Matmul1),
                not_inplaceable(),
                BindGroupReferenceBase::Bindgroup2(buffer_dest, buffer_input1, buffer_input2),
                ((n + 15) / 16) as u32,
                ((m + 15) / 16) as u32,
                b,
                (k * m * n) as usize,
            ),
            None => r == Err::<(), WebGpuError>(WebGpuError::UnsupportedDType(dtype)) &&
                *final(dev) == *old(dev),
        },
{
    let typ: KernelDType = match get_dtype(dtype) {
        Ok(typ) => typ,
        Err(e) => {
            return Err(e);
        },
    };
    let words: Vec<u32> = get_matmul1_words(b, m, n, k, layout_input1, layout_input2);
    begin_dispatch(dev, &words);
    let const_vec: Vec<u32> = Vec::new();
    assert(general_constants(const_vec@) =~= Seq::<(Constants, u32)>::empty());
    finish_dispatch(
        dev,
        Pipelines::Matmul(typ, MatmulFunctions::Matmul1),
        const_vec,
        OpIsInplaceable::new(),
        create_bind_group_input2(buffer_dest, buffer_input1, buffer_input2),
        (n + 15) / 16,
        (m + 15) / 16,
        b,
        (k * m * n) as usize,
    );
    Ok(())
}

/// Queues a matrix multiplication with the plain kernel whose workgroups take sixteen
/// columns of the result each. An element type without kernels is rejected, and nothing
/// changes.
pub fn queue_matmul_buffer1b(
    dev: &mut WgpuDevice,
    buffer_dest: BufferReferenceId,
    buffer_input1: BufferReferenceId,
    buffer_input2: BufferReferenceId,
    b: u32,
    m: u32,
    n: u32,
    k: u32,
    layout_input1: &Layout,
    layout_input2: &Layout,
    dtype: DType,
) -> (r: Result<(), WebGpuError>)
    requires
        old(dev).wf(),
        has_meta_room(*old(dev)),
        buffer_dest < old(dev).cache.references@.len(),
        buffer_input1 < old(dev).cache.references@.len(),
        buffer_input2 < old(dev).cache.references@.len(),
        n + 15 <= u32::MAX,
        ((n + 15) / 16 + 15) / 16 <= MAX_DISPATCH_SIZE,
        (m + 15) / 16 <= MAX_DISPATCH_SIZE,
        b <= MAX_DISPATCH_SIZE,
        k * m <= u32::MAX,
        k * m * n <= u32::MAX,
    ensures
        final(dev).wf(),
        match dtype.kernel_dtype() {
            Some(typ) => r is Ok && queued(
                *old(dev),
                *final(dev),
                matmul1_words(b, m, n, k, *layout_input1, *layout_input2),
                Seq::<(Constants, u32)>::empty(),
                Pipelines::Matmul(typ, MatmulFunctions::Matmul1End),
                not_inplaceable(),
                BindGroupReferenceBase::Bindgroup2(buffer_dest, buffer_input1, buffer_input2),
                (((n + 15) / 16 + 15) / 16) as u32,
                ((m + 15) / 16) as u32,
                b,
                (k * m * n) as usize,
            ),
            None => r == Err::<(), WebGpuError>(WebGpuError::UnsupportedDType(dtype)) &&
                *final(dev) == *old(dev),
        },
{
    let typ: KernelDType = match get_dtype(dtype) {
        Ok(typ) => typ,
        Err(e) => {
            return Err(e);
        },
    };
    let words: Vec<u32> = get_matmul1_words(b, m, n, k, layout_input1, layout_input2);
    begin_dispatch(dev, &words);
    let const_vec: Vec<u32> = Vec::new();
    assert(general_constants(const_vec@) =~= Seq::<(Constants, u32)>::empty());
    finish_dispatch(
        dev,
        Pipelines::Matmul(typ, MatmulFunctions::Matmul1End),
        const_vec,
        OpIsInplaceable::new(),
        create_bind_group_input2(buffer_dest, buffer_input1, buffer_input2),
        ((n + 15) / 16 + 15) / 16,
        (m + 15) / 16,
        b,
        (k * m * n) as usize,
    );
    Ok(())
}

/// The parameters of the tiled matrix multiplication kernels: the batch size and the
/// three extents, then for each input its batch stride and its start offset.
pub open spec fn matmul_tiled_words(
    b: u32,
    m: u32,
    n: u32,
    k: u32,
    input1_stride: Seq<usize>,
    input1_start_offset: usize,
    input2_stride: Seq<usize>,
    input2_start_offset: usize,
) -> Seq<u32> {
    seq![
        b,
        m,
        k,
        n,
        low_word(stride_from_back(input1_stride, 2) as int),
        low_word(input1_start_offset as int),
        low_word(stride_from_back(input2_stride, 2) as int),
        low_word(input2_start_offset as int),
    ]
}

/// The values of the general-purpose constants of the tiled matrix multiplication
/// kernels: the two inner strides of each input.
pub open spec fn matmul_tiled_constants(
    input1_stride: Seq<usize>,
    input2_stride: Seq<usize>,
) -> Seq<u32> {
    seq![
        low_word(stride_from_back(input1_stride, 0) as int),
        low_word(stride_from_back(input1_stride, 1) as int),
        low_word(stride_from_back(input2_stride, 0) as int),
        low_word(stride_from_back(input2_stride, 1) as int),
    ]
}

fn get_matmul_tiled_words(
    b: u32,
    m: u32,
    n: u32,
    k: u32,
    input1_stride: &Vec<usize>,
    input1_start_offset: usize,
    input2_stride: &Vec<usize>,
    input2_start_offset: usize,
) -> (r: (Vec<u32>, Vec<u32>))
    ensures
        r.0@ == matmul_tiled_words(
            b,
            m,
            n,
            k,
            input1_stride@,
            input1_start_offset,
            input2_stride@,
            input2_start_offset,
        ),
        r.1@ == matmul_tiled_constants(input1_stride@, input2_stride@),
{
    let mut words: Vec<u32> = Vec::new();
    words.push(b);
    words.push(m);
    words.push(k);
    words.push(n);
    words.push(to_word(get_stride_from_back(input1_stride, 2)));
    words.push(to_word(input1_start_offset));
    words.push(to_word(get_stride_from_back(input2_stride, 2)));
    words.push(to_word(input2_start_offset));
    assert(words@ =~= matmul_tiled_words(
        b,
        m,
        n,
        k,
        input1_stride@,
        input1_start_offset,
        input2_stride@,
        input2_start_offset,
    ));
    let mut const_vec: Vec<u32> = Vec::new();
    const_vec.push(to_word(get_stride_from_back(input1_stride, 0)));
    const_vec.push(to_word(get_stride_from_back(input1_stride, 1)));
    const_vec.push(to_word(get_stride_from_back(input2_stride, 0)));
    const_vec.push(to_word(get_stride_from_back(input2_stride, 1)));
    assert(const_vec@ =~= matmul_tiled_constants(input1_stride@, input2_stride@));
    (words, const_vec)
}

/// Queues a matrix multiplication with the kernel that takes the inner strides of its
/// inputs as constants, in workgroups of sixteen by sixteen elements of the result. An
/// element type without kernels is rejected, and nothing changes.
pub fn queue_matmul7_buffer(
    dev: &mut WgpuDevice,
    buffer_dest: BufferReferenceId,
    buffer_input1: BufferReferenceId,
    buffer_input2: BufferReferenceId,
    b: u32,
    m: u32,
    n: u32,
    k: u32,
    layout_input1: &Layout,
    layout_input2: &Layout,
    dtype: DType,
) -> (r: Result<(), WebGpuError>)
    requires
        old(dev).wf(),
        has_meta_room(*old(dev)),
        buffer_dest < old(dev).cache.references@.len(),
        buffer_input1 < old(dev).cache.references@.len(),
        buffer_input2 < old(dev).cache.references@.len(),
        (n + 15) / 16 <= MAX_DISPATCH_SIZE,
        (m + 15) / 16 <= MAX_DISPATCH_SIZE,
        b <= MAX_DISPATCH_SIZE,
        k * m <= usize::MAX,
        k * m * n <= usize::MAX,
    ensures
        final(dev).wf(),
        match dtype.kernel_dtype() {
            Some(typ) => r is Ok && queued(
                *old(dev),
                *final(dev),
                matmul_tiled_words(
                    b,
                    m,
                    n,
                    k,
                    layout_input1.stride@,
                    layout_input1.start_offset,
                    layout_input2.stride@,
                    layout_input2.start_offset,
                ),
                general_constants(
                    matmul_tiled_constants(layout_input1.stride@, layout_input2.stride@),
                ),
                Pipelines::Matmul(typ, MatmulFunctions::Matmul7),
                not_inplaceable(),
                BindGroupReferenceBase::Bindgroup2(buffer_dest, buffer_input1, buffer_input2),
                ((n + 15) / 16) as u32,
                ((m + 15) / 16) as u32,
                b,
                (k * m * n) as usize,
            ),
            None => r == Err::<(), WebGpuError>(WebGpuError::UnsupportedDType(dtype)) &&
                *final(dev) == *old(dev),
        },
{
    let typ: KernelDType = match get_dtype(dtype) {
        Ok(typ) => typ,
        Err(e) => {
            return Err(e);
        },
    };
    let (words, const_vec) = get_matmul_tiled_words(
        b,
        m,
        n,
        k,
        &layout_input1.stride,
        layout_input1.start_offset,
        &layout_input2.stride,
        layout_input2.start_offset,
    );
    begin_dispatch(dev, &words);
    finish_dispatch(
        dev,
        Pipelines::Matmul(typ, MatmulFunctions::Matmul7),
        const_vec,
        OpIsInplaceable::new(),
        create_bind_group_input2(buffer_dest, buffer_input1, buffer_input2),
        (n + 15) / 16,
        (m + 15) / 16,
        b,
        k as usize * m as usize * n as usize,
    );
    Ok(())
}

/// The tiles of a tiled matrix multiplication: how many rows and columns of the result
/// and how many steps along the inner extent one workgroup takes.
#[derive(Clone, Copy, Debug, PartialEq, Eq, Hash, Structural)]
pub struct Tiles {
    pub m_tile: u32,
    pub n_tile: u32,
    pub k_tile: u32,
}

/// The extents of a matrix multiplication: the batch size, the rows and the columns of
/// the result, and the inner extent.
#[derive(Clone, Copy, Debug, PartialEq, Eq, Hash, Structural)]
pub struct MatmulExtents {
    pub b: u32,
    pub m: u32,
    pub n: u32,
    pub k: u32,
}

impl MatmulExtents {
    /// The extents rounded up to whole tiles.
    pub open spec fn padded(self, tiles: Tiles) -> MatmulExtents {
        MatmulExtents {
            b: self.b,
            m: round_up_spec(self.m as int, tiles.m_tile as int) as u32,
            n: round_up_spec(self.n as int, tiles.n_tile as int) as u32,
            k: round_up_spec(self.k as int, tiles.k_tile as int) as u32,
        }
    }

    /// Whether the first input must be copied into a padded buffer: its extents are not
    /// whole tiles, or its innermost stride is not one.
    pub open spec fn pads_input1(self, tiles: Tiles, input1_stride: Seq<usize>) -> bool {
        !(self.m % tiles.m_tile == 0 && self.k % tiles.k_tile == 0 && stride_from_back(
            input1_stride,
            0,
        ) == 1)
    }

    /// Whether the second input must be copied into a padded buffer: its extents are not
    /// whole tiles, or its second innermost stride is not one.
    pub open spec fn pads_input2(self, tiles: Tiles, input2_stride: Seq<usize>) -> bool {
        !(self.n % tiles.n_tile == 0 && self.k % tiles.k_tile == 0 && stride_from_back(
            input2_stride,
            1,
        ) == 1)
    }

    /// How many copies into and out of padded buffers the multiplication needs.
    pub open spec fn copies(
        self,
        tiles: Tiles,
        input1_stride: Seq<usize>,
        input2_stride: Seq<usize>,
    ) -> int {
        (if self.pads_input1(tiles, input1_stride) {
            1int
        } else {
            0int
        }) + (if self.pads_input2(tiles, input2_stride) {
            1int
        } else {
            0int
        }) + (if self.pads_output(tiles) {
            1int
        } else {
            0int
        })
    }

    /// Whether the result must be computed into a padded buffer and copied out of it: its
    /// extents are not whole tiles.
    pub open spec fn pads_output(self, tiles: Tiles) -> bool {
        self.padded(tiles).m != self.m || self.padded(tiles).n != self.n
    }
}

/// The strides of a tensor of three dimensions that lies in row-major order without gaps.
pub open spec fn row_major_strides(rows: u32, columns: u32) -> Seq<usize> {
    seq![(rows * columns) as usize, columns as usize, 1usize]
}

/// The strides of a tensor of three dimensions whose matrices lie in column-major order
/// without gaps.
pub open spec fn column_major_strides(rows: u32, columns: u32) -> Seq<usize> {
    seq![(rows * columns) as usize, 1usize, rows as usize]
}

/// A logical buffer of `size` bytes that was just made.
pub open spec fn fresh_reference(size: int) -> BufferReference {
    BufferReference { size: size as u64, storage: None, referenced_by_storage: false }
}

/// The logical buffers after a tiled matrix multiplication made the padded buffers it
/// needs: one for each input that must be padded, then one for the result if that must
/// be padded, each of four bytes for every element of the padded extents.
pub open spec fn matmul_generic_references(
    references: Seq<BufferReference>,
    e: MatmulExtents,
    tiles: Tiles,
    input1_stride: Seq<usize>,
    input2_stride: Seq<usize>,
) -> Seq<BufferReference> {
    let p = e.padded(tiles);
    let r1 = if e.pads_input1(tiles, input1_stride) {
        references.push(fresh_reference(p.b * (p.m * p.k) * 4))
    } else {
        references
    };
    let r2 = if e.pads_input2(tiles, input2_stride) {
        r1.push(fresh_reference(p.b * (p.k * p.n) * 4))
    } else {
        r1
    };
    if e.pads_output(tiles) {
        r2.push(fresh_reference(p.b * (p.m * p.n) * 4))
    } else {
        r2
    }
}

/// The queue after an input of a tiled matrix multiplication was copied into the padded
/// buffer `padded`, where that is needed.
pub open spec fn padded_queue(
    queue: QueueView,
    alignment_words: int,
    needed: bool,
    typ: KernelDType,
    padded: BufferReferenceId,
    buffer_input: BufferReferenceId,
    input_stride: Seq<usize>,
    input_start_offset: usize,
    input_shape: (u32, u32, u32),
    padded_stride: Seq<usize>,
) -> QueueView {
    if needed {
        copy3d_dispatched(
            queue,
            alignment_words,
            Pipelines::Copy(typ, CopyFunctions::Copy3dPadded),
            padded,
            buffer_input,
            input_stride,
            input_start_offset,
            input_shape,
            padded_stride,
        )
    } else {
        queue
    }
}

/// The queue after the multiplication itself of a tiled matrix multiplication was
/// queued: it runs on the padded extents `p`, one workgroup for each tile of the result
/// and one layer of workgroups for each matrix of the batch; its constants are the inner
/// strides of its inputs and whether there is more than one matrix.
pub open spec fn multiplied_queue(
    queue: QueueView,
    alignment_words: int,
    e: MatmulExtents,
    p: MatmulExtents,
    tiles: Tiles,
    binding: BindGroupReference,
    stride1: Seq<usize>,
    offset1: usize,
    stride2: Seq<usize>,
    offset2: usize,
    typ: KernelDType,
    function: MatmulFunctions,
) -> QueueView {
    dispatched(
        queue,
        alignment_words,
        matmul_tiled_words(p.b, p.m, p.n, p.k, stride1, offset1, stride2, offset2),
        general_constants(
            matmul_tiled_constants(stride1, stride2).push(
                if e.b != 1 {
                    1u32
                } else {
                    0u32
                },
            ),
        ),
        Pipelines::Matmul(typ, function),
        not_inplaceable(),
        binding,
        (p.n / tiles.n_tile) as u32,
        (p.m / tiles.m_tile) as u32,
        e.b,
        (e.k * e.m * e.n) as usize,
    )
}

/// The queue after the result of a tiled matrix multiplication was copied out of the
/// padded buffer `padded`, where that is needed.
pub open spec fn unpadded_queue(
    queue: QueueView,
    alignment_words: int,
    needed: bool,
    typ: KernelDType,
    buffer_dest: BufferReferenceId,
    padded: BufferReferenceId,
    e: MatmulExtents,
    p: MatmulExtents,
) -> QueueView {
    if needed {
        copy3d_dispatched(
            queue,
            alignment_words,
            Pipelines::Copy(typ, CopyFunctions::Copy3d),
            buffer_dest,
            padded,
            row_major_strides(p.m, p.n),
            0,
            (e.b, e.m, e.n),
            row_major_strides(e.m, e.n),
        )
    } else {
        queue
    }
}

/// The queue after a tiled matrix multiplication was queued.
///
/// An input that must be padded is first copied into a new padded buffer, the first
/// input in row-major order, the second with its matrices in column-major order; the new
/// buffers take the numbers from `references` on. The multiplication then runs on the
/// padded extents. A result that must be padded is computed into a new padded buffer and
/// copied out of it.
pub open spec fn matmul_generic_queue(
    queue: QueueView,
    alignment_words: int,
    references: int,
    buffer_dest: BufferReferenceId,
    buffer_input1: BufferReferenceId,
    buffer_input2: BufferReferenceId,
    e: MatmulExtents,
    tiles: Tiles,
    input1_stride: Seq<usize>,
    input1_start_offset: usize,
    input2_stride: Seq<usize>,
    input2_start_offset: usize,
    typ: KernelDType,
    function: MatmulFunctions,
) -> QueueView {
    let p = e.padded(tiles);
    let pads1 = e.pads_input1(tiles, input1_stride);
    let pads2 = e.pads_input2(tiles, input2_stride);
    let pads_out = e.pads_output(tiles);
    let padded1 = references as usize;
    let padded2 = (references + if pads1 {
        1int
    } else {
        0int
    }) as usize;
    let padded_out = (references + if pads1 {
        1int
    } else {
        0int
    } + if pads2 {
        1int
    } else {
        0int
    }) as usize;
    let q1 = padded_queue(
        queue,
        alignment_words,
        pads1,
        typ,
        padded1,
        buffer_input1,
        input1_stride,
        input1_start_offset,
        (e.b, e.m, e.k),
        row_major_strides(p.m, p.k),
    );
    let q2 = padded_queue(
        q1,
        alignment_words,
        pads2,
        typ,
        padded2,
        buffer_input2,
        input2_stride,
        input2_start_offset,
        (e.b, e.k, e.n),
        column_major_strides(p.k, p.n),
    );
    let q3 = multiplied_queue(
        q2,
        alignment_words,
        e,
        p,
        tiles,
        BindGroupReferenceBase::Bindgroup2(
            if pads_out {
                padded_out
            } else {
                buffer_dest
            },
            if pads1 {
                padded1
            } else {
                buffer_input1
            },
            if pads2 {
                padded2
            } else {
                buffer_input2
            },
        ),
        if pads1 {
            row_major_strides(p.m, p.k)
        } else {
            input1_stride
        },
        if pads1 {
            0usize
        } else {
            input1_start_offset
        },
        if pads2 {
            column_major_strides(p.k, p.n)
        } else {
            input2_stride
        },
        if pads2 {
            0usize
        } else {
            input2_start_offset
        },
        typ,
        function,
    );
    unpadded_queue(q3, alignment_words, pads_out, typ, buffer_dest, padded_out, e, p)
}

/// What a tiled matrix multiplication asks of its operands: tiles that are not zero;
/// extents that can be rounded up to whole tiles; padded buffers, where they are needed,
/// that are not empty and whose sizes can be counted in 32 bits; room in the blob for the
/// multiplication and for each copy that it needs; known buffers; workgroup counts
/// within the dispatch limit; and a number of elementary steps that can be counted.
pub open spec fn matmul_generic_fits(
    dev: WgpuDevice,
    buffer_dest: BufferReferenceId,
    buffer_input1: BufferReferenceId,
    buffer_input2: BufferReferenceId,
    e: MatmulExtents,
    tiles: Tiles,
    input1_stride: Seq<usize>,
    input2_stride: Seq<usize>,
) -> bool {
    let p = e.padded(tiles);
    &&& tiles.m_tile != 0 && tiles.n_tile != 0 && tiles.k_tile != 0
    &&& e.m + tiles.m_tile <= u32::MAX
    &&& e.n + tiles.n_tile <= u32::MAX
    &&& e.k + tiles.k_tile <= u32::MAX
    &&& e.pads_input1(tiles, input1_stride) ==> 0 < p.b * (p.m * p.k) * 4 <= u32::MAX
    &&& e.pads_input2(tiles, input2_stride) ==> 0 < p.b * (p.k * p.n) * 4 <= u32::MAX
    &&& e.pads_output(tiles) ==> 0 < p.b * (p.m * p.n) * 4 <= u32::MAX
    &&& has_room_for(dev, 1 + e.copies(tiles, input1_stride, input2_stride), 8 + 6 * e.copies(
        tiles,
        input1_stride,
        input2_stride,
    ))
    &&& buffer_dest < dev.cache.references@.len()
    &&& buffer_input1 < dev.cache.references@.len()
    &&& buffer_input2 < dev.cache.references@.len()
    &&& dev.cache.references@.len() + 3 <= usize::MAX
    &&& e.b <= MAX_DISPATCH_SIZE
    &&& p.n / tiles.n_tile <= MAX_DISPATCH_SIZE
    &&& p.m / tiles.m_tile <= MAX_DISPATCH_SIZE
    &&& (e.pads_input1(tiles, input1_stride) || e.pads_output(tiles)) ==> (e.m + 15) / 16
        <= MAX_DISPATCH_SIZE
    &&& (e.pads_input2(tiles, input2_stride) || e.pads_output(tiles)) ==> (e.n + 15) / 16
        <= MAX_DISPATCH_SIZE
    &&& (e.pads_input1(tiles, input1_stride) || e.pads_input2(tiles, input2_stride)) ==> (e.k
        + 15) / 16 <= MAX_DISPATCH_SIZE
    &&& e.k * e.m <= usize::MAX
    &&& e.k * e.m * e.n <= usize::MAX
}

/// What follows for a tensor of `b` matrices of `x` by `y` elements from the size in
/// bytes of its padded twin of `big_x` by `big_y` elements being a `u32`.
proof fn lemma_padded_size(b: int, x: int, y: int, big_x: int, big_y: int)
    by (nonlinear_arith)
    requires
        0 <= b,
        0 <= x <= big_x,
        0 <= y <= big_y,
        x == 0 <==> big_x == 0,
        y == 0 <==> big_y == 0,
        0 < b * (big_x * big_y) * 4 <= u32::MAX,
    ensures
        1 <= big_x * big_y <= u32::MAX,
        1 <= b * (big_x * big_y) <= u32::MAX,
        1 <= b * (big_x * big_y) * 4,
        1 <= x * y <= u32::MAX,
        1 <= b * x <= u32::MAX,
        1 <= b * x * y <= u32::MAX,
{
}

/// The strides of [`row_major_strides`].
fn get_row_major_strides(rows: u32, columns: u32) -> (r: Vec<usize>)
    requires
        rows * columns <= usize::MAX,
    ensures
        r@ == row_major_strides(rows, columns),
{
    let mut r: Vec<usize> = Vec::new();
    r.push(rows as usize * columns as usize);
    r.push(columns as usize);
    r.push(1);
    assert(r@ =~= row_major_strides(rows, columns));
    r
}

/// The strides of [`column_major_strides`].
fn get_column_major_strides(rows: u32, columns: u32) -> (r: Vec<usize>)
    requires
        rows * columns <= usize::MAX,
    ensures
        r@ == column_major_strides(rows, columns),
{
    let mut r: Vec<usize> = Vec::new();
    r.push(rows as usize * columns as usize);
    r.push(1);
    r.push(rows as usize);
    assert(r@ =~= column_major_strides(rows, columns));
    r
}

/// A copy of a list of counts.
fn copy_counts(values: &Vec<usize>) -> (r: Vec<usize>)
    ensures
        r@ == values@,
{
    let mut r: Vec<usize> = Vec::new();
    let mut i: usize = 0;
    while i < values.len()
        invariant
            i <= values@.len(),
            r@ == values@.subrange(0, i as int),
        decreases values@.len() - i,
    {
        r.push(values[i]);
        assert(r@ =~= values@.subrange(0, i + 1));
        i = i + 1;
    }
    assert(r@ =~= values@);
    r
}

/// Copies an input into a new padded buffer where that is needed. The result is the
/// buffer to multiply from, with its strides and its start offset.
fn pad_input(
    dev: &mut WgpuDevice,
    needed: bool,
    typ: KernelDType,
    buffer_input: BufferReferenceId,
    input_stride: &Vec<usize>,
    input_start_offset: usize,
    input_shape: (u32, u32, u32),
    padded_size: u32,
    padded_stride: Vec<usize>,
) -> (r: (BufferReferenceId, Vec<usize>, usize))
    requires
        old(dev).wf(),
        buffer_input < old(dev).cache.references@.len(),
        needed ==> has_meta_room(*old(dev)) && padded_size > 0 && copy3d_fits(
            *old(dev),
            buffer_input,
            buffer_input,
            input_shape,
        ),
    ensures
        final(dev).wf(),
        needed ==> r.0 == old(dev).cache.references@.len() && r.1@ == padded_stride@ && r.2 == 0
            && final(dev).cache.references@ == old(dev).cache.references@.push(
            fresh_reference(padded_size as int),
        ) && final(dev).queue() == copy3d_dispatched(
            old(dev).queue(),
            old(dev).device_limits.alignment_words(),
            Pipelines::Copy(typ, CopyFunctions::Copy3dPadded),
            r.0,
            buffer_input,
            input_stride@,
            input_start_offset,
            input_shape,
            padded_stride@,
        ),
        !needed ==> r.0 == buffer_input && r.1@ == input_stride@ && r.2 == input_start_offset
            && final(dev).cache.references@ == old(dev).cache.references@ && final(dev).queue()
            == old(dev).queue(),
        needed ==> final(dev).command_queue.meta().len() < old(dev).command_queue.meta().len()
            + old(dev).device_limits.alignment_words() + 6,
        !needed ==> final(dev).command_queue.meta().len() == old(dev).command_queue.meta().len(),
        final(dev).device_limits == old(dev).device_limits,
        final(dev).shader == old(dev).shader,
        final(dev).cache.buffers == old(dev).cache.buffers,
        final(dev).cache.bindgroups == old(dev).cache.bindgroups,
        final(dev).cache.max_bindgroups == old(dev).cache.max_bindgroups,
        final(dev).cache.mappings == old(dev).cache.mappings,
        final(dev).use_cache == old(dev).use_cache,
        final(dev).matmul_alg == old(dev).matmul_alg,
{
    if needed {
        let padded: BufferReferenceId = dev.cache.create_reference(padded_size as u64);
        let r = queue_copy3d_padded(
            dev,
            padded,
            buffer_input,
            typ.tensor_dtype(),
            input_stride,
            input_start_offset,
            input_shape,
            &padded_stride,
        );
        assert(r is Ok);
        (padded, padded_stride, 0)
    } else {
        (buffer_input, copy_counts(input_stride), input_start_offset)
    }
}

/// Whether `after` is `before` with each input of a tiled matrix multiplication that
/// must be padded copied into a new padded buffer, `r` names for each input the buffer
/// to read with its strides and its start offset, and the blob has room for what is
/// still to be queued.
spec fn inputs_padded(
    before: WgpuDevice,
    after: WgpuDevice,
    r: ((BufferReferenceId, Vec<usize>, usize), (BufferReferenceId, Vec<usize>, usize)),
    typ: KernelDType,
    buffer_input1: BufferReferenceId,
    buffer_input2: BufferReferenceId,
    e: MatmulExtents,
    tiles: Tiles,
    layout_input1: Layout,
    layout_input2: Layout,
) -> bool {
    let p = e.padded(tiles);
    let pads1 = e.pads_input1(tiles, layout_input1.stride@);
    let pads2 = e.pads_input2(tiles, layout_input2.stride@);
    let align = before.device_limits.alignment_words();
    let count = before.cache.references@.len() as int;
    let padded1 = count as usize;
    let padded2 = (count + if pads1 {
        1int
    } else {
        0int
    }) as usize;
    let q1 = padded_queue(
        before.queue(),
        align,
        pads1,
        typ,
        padded1,
        buffer_input1,
        layout_input1.stride@,
        layout_input1.start_offset,
        (e.b, e.m, e.k),
        row_major_strides(p.m, p.k),
    );
    let r1 = if pads1 {
        before.cache.references@.push(fresh_reference(p.b * (p.m * p.k) * 4))
    } else {
        before.cache.references@
    };
    &&& after.queue() == padded_queue(
        q1,
        align,
        pads2,
        typ,
        padded2,
        buffer_input2,
        layout_input2.stride@,
        layout_input2.start_offset,
        (e.b, e.k, e.n),
        column_major_strides(p.k, p.n),
    )
    &&& after.cache.references@ == if pads2 {
        r1.push(fresh_reference(p.b * (p.k * p.n) * 4))
    } else {
        r1
    }
    &&& pads1 ==> r.0.0 == padded1 && r.0.1@ == row_major_strides(p.m, p.k) && r.0.2 == 0
    &&& !pads1 ==> r.0.0 == buffer_input1 && r.0.1@ == layout_input1.stride@ && r.0.2
        == layout_input1.start_offset
    &&& pads2 ==> r.1.0 == padded2 && r.1.1@ == column_major_strides(p.k, p.n) && r.1.2 == 0
    &&& !pads2 ==> r.1.0 == buffer_input2 && r.1.1@ == layout_input2.stride@ && r.1.2
        == layout_input2.start_offset
    &&& after.device_limits == before.device_limits
    &&& after.shader == before.shader
    &&& after.cache.buffers == before.cache.buffers
    &&& after.cache.bindgroups == before.cache.bindgroups
    &&& after.cache.max_bindgroups == before.cache.max_bindgroups
    &&& after.cache.mappings == before.cache.mappings
    &&& after.use_cache == before.use_cache
    &&& after.matmul_alg == before.matmul_alg
    &&& has_room_for(after, 1, 8)
    &&& e.pads_output(tiles) ==> has_room_for(after, 2, 14)
}

/// Copies each input of a tiled matrix multiplication that must be padded into a new
/// padded buffer. The result names, for each input, the buffer to read with its strides
/// and its start offset.
#[verifier::rlimit(50)]
fn pad_inputs(
    dev: &mut WgpuDevice,
    typ: KernelDType,
    buffer_dest: BufferReferenceId,
    buffer_input1: BufferReferenceId,
    buffer_input2: BufferReferenceId,
    e: MatmulExtents,
    tiles: Tiles,
    p: MatmulExtents,
    layout_input1: &Layout,
    layout_input2: &Layout,
) -> (r: ((BufferReferenceId, Vec<usize>, usize), (BufferReferenceId, Vec<usize>, usize)))
    requires
        old(dev).wf(),
        matmul_generic_fits(
            *old(dev),
            buffer_dest,
            buffer_input1,
            buffer_input2,
            e,
            tiles,
            layout_input1.stride@,
            layout_input2.stride@,
        ),
        p == e.padded(tiles),
        e.m <= p.m && e.n <= p.n && e.k <= p.k,
        (p.m == 0 <==> e.m == 0) && (p.n == 0 <==> e.n == 0) && (p.k == 0 <==> e.k == 0),
    ensures
        final(dev).wf(),
        inputs_padded(
            *old(dev),
            *final(dev),
            r,
            typ,
            buffer_input1,
            buffer_input2,
            e,
            tiles,
            *layout_input1,
            *layout_input2,
        ),
{
    let input1_stride_k: usize = get_stride_from_back(&layout_input1.stride, 0);
    let input2_stride_k: usize = get_stride_from_back(&layout_input2.stride, 1);
    let pads1: bool = !(e.m % tiles.m_tile == 0 && e.k % tiles.k_tile == 0 && input1_stride_k
        == 1);
    let pads2: bool = !(e.n % tiles.n_tile == 0 && e.k % tiles.k_tile == 0 && input2_stride_k
        == 1);
    let ghost unit = dev.device_limits.alignment_words();
    let ghost (c1, c2, c3) = (
        if pads1 {
            1int
        } else {
            0int
        },
        if pads2 {
            1int
        } else {
            0int
        },
        if e.pads_output(tiles) {
            1int
        } else {
            0int
        },
    );
    let ghost (u1, u2, u3) = (
        if pads1 {
            unit
        } else {
            0int
        },
        if pads2 {
            unit
        } else {
            0int
        },
        if e.pads_output(tiles) {
            unit
        } else {
            0int
        },
    );
    let ghost len0 = dev.command_queue.meta().len() as int;
    assert(len0 + unit + u1 + u2 + u3 + 8 + 6 * (c1 + c2 + c3) <= i32::MAX) by {
        let c = c1 + c2 + c3;
        assert(e.copies(tiles, layout_input1.stride@, layout_input2.stride@) == c);
        assert(u1 == c1 * unit) by (nonlinear_arith)
            requires
                c1 == 0 && u1 == 0 || c1 == 1 && u1 == unit,
        ;
        assert(u2 == c2 * unit) by (nonlinear_arith)
            requires
                c2 == 0 && u2 == 0 || c2 == 1 && u2 == unit,
        ;
        assert(u3 == c3 * unit) by (nonlinear_arith)
            requires
                c3 == 0 && u3 == 0 || c3 == 1 && u3 == unit,
        ;
        assert((1 + c) * unit == unit + c1 * unit + c2 * unit + c3 * unit) by (nonlinear_arith)
            requires
                c == c1 + c2 + c3,
        ;
    }
    let (size1, stride1): (u32, Vec<usize>) = if pads1 {
        proof {
            lemma_padded_size(e.b as int, e.m as int, e.k as int, p.m as int, p.k as int);
        }
        (e.b * (p.m * p.k) * 4, get_row_major_strides(p.m, p.k))
    } else {
        (0, Vec::new())
    };
    let first = pad_input(
        dev,
        pads1,
        typ,
        buffer_input1,
        &layout_input1.stride,
        layout_input1.start_offset,
        (e.b, e.m, e.k),
        size1,
        stride1,
    );
    let ghost len1 = dev.command_queue.meta().len() as int;
    assert(len1 + unit + u2 + u3 + 8 + 6 * (c2 + c3) <= i32::MAX);
    let (size2, stride2): (u32, Vec<usize>) = if pads2 {
        proof {
            lemma_padded_size(e.b as int, e.k as int, e.n as int, p.k as int, p.n as int);
        }
        (e.b * (p.k * p.n) * 4, get_column_major_strides(p.k, p.n))
    } else {
        (0, Vec::new())
    };
    let second = pad_input(
        dev,
        pads2,
        typ,
        buffer_input2,
        &layout_input2.stride,
        layout_input2.start_offset,
        (e.b, e.k, e.n),
        size2,
        stride2,
    );
    let ghost len2 = dev.command_queue.meta().len() as int;
    assert(len2 + unit + u3 + 8 + 6 * c3 <= i32::MAX);
    (first, second)
}

/// Copies the result of a tiled matrix multiplication out of the padded buffer `padded`,
/// where that is needed.
fn unpad_output(
    dev: &mut WgpuDevice,
    needed: bool,
    typ: KernelDType,
    buffer_dest: BufferReferenceId,
    padded: BufferReferenceId,
    e: MatmulExtents,
    p: MatmulExtents,
)
    requires
        old(dev).wf(),
        needed ==> has_meta_room(*old(dev)) && copy3d_fits(
            *old(dev),
            buffer_dest,
            padded,
            (e.b, e.m, e.n),
        ) && p.m * p.n <= usize::MAX && e.m * e.n <= usize::MAX,
    ensures
        final(dev).wf(),
        final(dev).queue() == unpadded_queue(
            old(dev).queue(),
            old(dev).device_limits.alignment_words(),
            needed,
            typ,
            buffer_dest,
            padded,
            e,
            p,
        ),
        unchanged_but_queue(*old(dev), *final(dev)),
{
    if needed {
        let padded_stride: Vec<usize> = get_row_major_strides(p.m, p.n);
        let dest_stride: Vec<usize> = get_row_major_strides(e.m, e.n);
        let r = queue_copy3d(
            dev,
            buffer_dest,
            padded,
            typ.tensor_dtype(),
            &padded_stride,
            0,
            (e.b, e.m, e.n),
            &dest_stride,
        );
        assert(r is Ok);
    }
}

/// The constants of the multiplication itself: the inner strides, then whether there is
/// more than one matrix.
spec fn const_vec_view(strides: Seq<u32>, use_batch: bool) -> Seq<u32> {
    strides.push(
        if use_batch {
            1u32
        } else {
            0u32
        },
    )
}

/// Queues one dispatch that overwrites no input: writes its parameters, closes its
/// constant set and puts it at the end of the queue.
fn queue_dispatch(
    dev: &mut WgpuDevice,
    words: &Vec<u32>,
    kernel: Pipelines,
    const_vec: Vec<u32>,
    bind_group: BindGroupReference,
    x: u32,
    y: u32,
    z: u32,
    workload_size: usize,
)
    requires
        old(dev).wf(),
        has_meta_room(*old(dev)),
        const_vec@.len() <= GENERAL_CONSTANTS,
        x <= MAX_DISPATCH_SIZE,
        y <= MAX_DISPATCH_SIZE,
        z <= MAX_DISPATCH_SIZE,
        forall|k: int|
            0 <= k < bind_group.buffers().len() ==>
                (#[trigger] bind_group.buffers()[k]) < old(dev).cache.references@.len(),
    ensures
        final(dev).wf(),
        queued(
            *old(dev),
            *final(dev),
            words@,
            general_constants(const_vec@),
            kernel,
            not_inplaceable(),
            bind_group,
            x,
            y,
            z,
            workload_size,
        ),
        final(dev).command_queue.meta().len() < old(dev).command_queue.meta().len()
            + old(dev).device_limits.alignment_words() + words@.len(),
{
    begin_dispatch(dev, words);
    finish_dispatch(
        dev,
        kernel,
        const_vec,
        OpIsInplaceable::new(),
        bind_group,
        x,
        y,
        z,
        workload_size,
    );
}

/// Queues a tiled matrix multiplication; see [`matmul_generic_queue`]. An element type
/// without kernels is rejected, and nothing changes.
pub fn queue_matmul_generic(
    dev: &mut WgpuDevice,
    buffer_dest: BufferReferenceId,
    buffer_input1: BufferReferenceId,
    buffer_input2: BufferReferenceId,
    b: u32,
    m: u32,
    n: u32,
    k: u32,
    layout_input1: &Layout,
    layout_input2: &Layout,
    dtype: DType,
    m_tile: u32,
    n_tile: u32,
    k_tile: u32,
    function: MatmulFunctions,
) -> (r: Result<(), WebGpuError>)
    requires
        old(dev).wf(),
        matmul_generic_fits(
            *old(dev),
            buffer_dest,
            buffer_input1,
            buffer_input2,
            MatmulExtents { b, m, n, k },
            Tiles { m_tile, n_tile, k_tile },
            layout_input1.stride@,
            layout_input2.stride@,
        ),
    ensures
        final(dev).wf(),
        matmul_generic_queued(
            *old(dev),
            *final(dev),
            r,
            buffer_dest,
            buffer_input1,
            buffer_input2,
            MatmulExtents { b, m, n, k },
            Tiles { m_tile, n_tile, k_tile },
            *layout_input1,
            *layout_input2,
            dtype,
            function,
        ),
{
    let typ: KernelDType = match get_dtype(dtype) {
        Ok(typ) => typ,
        Err(e) => {
            return Err(e);
        },
    };
    let ghost e = MatmulExtents { b, m, n, k };
    let ghost tiles = Tiles { m_tile, n_tile, k_tile };
    let new_m: u32 = round_to_next_divisible(m, m_tile);
    let new_n: u32 = round_to_next_divisible(n, n_tile);
    let new_k: u32 = round_to_next_divisible(k, k_tile);
    assert(e.padded(tiles) == MatmulExtents { b, m: new_m, n: new_n, k: new_k });
    let need_different_output_buffer: bool = new_m != m || new_n != n;
    let ghost align = dev.device_limits.alignment_words();
    let ghost p = e.padded(tiles);
    let (
        (buffer_input1_padded, stride1_padded, offset1_padded),
        (buffer_input2_padded, stride2_padded, offset2_padded),
    ) = pad_inputs(
        dev,
        typ,
        buffer_dest,
        buffer_input1,
        buffer_input2,
        MatmulExtents { b, m, n, k },
        Tiles { m_tile, n_tile, k_tile },
        MatmulExtents { b, m: new_m, n: new_n, k: new_k },
        layout_input1,
        layout_input2,
    );
    let ghost dev2 = *dev;
    let buffer_dest_padded: BufferReferenceId = if need_different_output_buffer {
        proof {
            lemma_padded_size(b as int, m as int, n as int, new_m as int, new_n as int);
        }
        dev.cache.create_reference((b * (new_m * new_n) * 4) as u64)
    } else {
        buffer_dest
    };
    let use_batch: bool = b != 1;
    let (words, mut const_vec) = get_matmul_tiled_words(
        b,
        new_m,
        new_n,
        new_k,
        &stride1_padded,
        offset1_padded,
        &stride2_padded,
        offset2_padded,
    );
    let ghost const_vec_before = const_vec@;
    const_vec.push(
        if use_batch {
            1
        } else {
            0
        },
    );
    let ghost const_vec_after = const_vec@;
    queue_dispatch(
        dev,
        &words,
        Pipelines::Matmul(typ, function),
        const_vec,
        create_bind_group_input2(buffer_dest_padded, buffer_input1_padded, buffer_input2_padded),
        new_n / n_tile,
        new_m / m_tile,
        b,
        k as usize * m as usize * n as usize,
    );
    let ghost dev3 = *dev;
    proof {
        assert(const_vec_view(const_vec_before, use_batch) == const_vec_after);
        assert(dev3.queue() == multiplied_queue(
            dev2.queue(),
            align,
            e,
            p,
            tiles,
            BindGroupReferenceBase::Bindgroup2(
                buffer_dest_padded,
                buffer_input1_padded,
                buffer_input2_padded,
            ),
            stride1_padded@,
            offset1_padded,
            stride2_padded@,
            offset2_padded,
            typ,
            function,
        ));
    }
    proof {
        if need_different_output_buffer {
            lemma_padded_size(b as int, m as int, n as int, new_m as int, new_n as int);
        }
    }
    unpad_output(
        dev,
        need_different_output_buffer,
        typ,
        buffer_dest,
        buffer_dest_padded,
        MatmulExtents { b, m, n, k },
        MatmulExtents { b, m: new_m, n: new_n, k: new_k },
    );
    proof {
        assert(dev.cache.references@ =~= matmul_generic_references(
            old(dev).cache.references@,
            e,
            tiles,
            layout_input1.stride@,
            layout_input2.stride@,
        ));
    }
    Ok(())
}

/// Queues a tiled matrix multiplication with tiles of sixteen by sixteen.
pub fn queue_matmul5_buffer(
    dev: &mut WgpuDevice,
    buffer_dest: BufferReferenceId,
    buffer_input1: BufferReferenceId,
    buffer_input2: BufferReferenceId,
    b: u32,
    m: u32,
    n: u32,
    k: u32,
    layout_input1: &Layout,
    layout_input2: &Layout,
    dtype: DType,
) -> (r: Result<(), WebGpuError>)
    requires
        old(dev).wf(),
        matmul_generic_fits(
            *old(dev),
            buffer_dest,
            buffer_input1,
            buffer_input2,
            MatmulExtents { b, m, n, k },
            Tiles { m_tile: 16, n_tile: 16, k_tile: 16 },
            layout_input1.stride@,
            layout_input2.stride@,
        ),
    ensures
        final(dev).wf(),
        matmul_generic_queued(
            *old(dev),
            *final(dev),
            r,
            buffer_dest,
            buffer_input1,
            buffer_input2,
            MatmulExtents { b, m, n, k },
            Tiles { m_tile: 16, n_tile: 16, k_tile: 16 },
            *layout_input1,
            *layout_input2,
            dtype,
            MatmulFunctions::Matmul5,
        ),
{
    queue_matmul_generic(
        dev,
        buffer_dest,
        buffer_input1,
        buffer_input2,
        b,
        m,
        n,
        k,
        layout_input1,
        layout_input2,
        dtype,
        16,
        16,
        16,
        MatmulFunctions::Matmul5,
    )
}

/// The tiles and the kernel of a tiled algorithm; the two plain algorithms and the one
/// with constant strides have none.
pub open spec fn tiled_algorithm(alg: MatmulAlgorithm) -> Option<(Tiles, MatmulFunctions)> {
    match alg {
        MatmulAlgorithm::Matmul7 => None,
        MatmulAlgorithm::Matmul1 => None,
        MatmulAlgorithm::Matmul5 => Some(
            (Tiles { m_tile: 16, n_tile: 16, k_tile: 16 }, MatmulFunctions::Matmul5),
        ),
        MatmulAlgorithm::Matmul5_32_32 => Some(
            (Tiles { m_tile: 32, n_tile: 32, k_tile: 16 }, MatmulFunctions::Matmul5Tile32x32),
        ),
        MatmulAlgorithm::Matuml5_64_64 => Some(
            (Tiles { m_tile: 64, n_tile: 64, k_tile: 16 }, MatmulFunctions::Matmul5Tile64x64),
        ),
        MatmulAlgorithm::Matmul5_128_128 => Some(
            (Tiles { m_tile: 128, n_tile: 128, k_tile: 16 }, MatmulFunctions::Matmul5Tile128x128),
        ),
        MatmulAlgorithm::Matmul5_64_64_8_8 => Some(
            (Tiles { m_tile: 64, n_tile: 64, k_tile: 16 }, MatmulFunctions::Matmul5Tile64x64Vec8x8),
        ),
        MatmulAlgorithm::Matmul5_16_64 => Some(
            (Tiles { m_tile: 16, n_tile: 64, k_tile: 16 }, MatmulFunctions::Matmul5Tile16x64),
        ),
    }
}

/// What the plain kernel and the kernel with constant strides ask of their operands:
/// room in the blob, known buffers, workgroup counts within the dispatch limit, and a
/// number of elementary steps that can be counted in `steps_limit`.
pub open spec fn matmul_plain_fits(
    dev: WgpuDevice,
    buffer_dest: BufferReferenceId,
    buffer_input1: BufferReferenceId,
    buffer_input2: BufferReferenceId,
    e: MatmulExtents,
    steps_limit: int,
) -> bool {
    &&& has_meta_room(dev)
    &&& buffer_dest < dev.cache.references@.len()
    &&& buffer_input1 < dev.cache.references@.len()
    &&& buffer_input2 < dev.cache.references@.len()
    &&& (e.n + 15) / 16 <= MAX_DISPATCH_SIZE
    &&& (e.m + 15) / 16 <= MAX_DISPATCH_SIZE
    &&& e.b <= MAX_DISPATCH_SIZE
    &&& e.k * e.m <= steps_limit
    &&& e.k * e.m * e.n <= steps_limit
}

/// What [`queue_matmul_generic`] promises, as one predicate.
pub open spec fn matmul_generic_queued(
    before: WgpuDevice,
    after: WgpuDevice,
    r: Result<(), WebGpuError>,
    buffer_dest: BufferReferenceId,
    buffer_input1: BufferReferenceId,
    buffer_input2: BufferReferenceId,
    e: MatmulExtents,
    tiles: Tiles,
    layout_input1: Layout,
    layout_input2: Layout,
    dtype: DType,
    function: MatmulFunctions,
) -> bool {
    match dtype.kernel_dtype() {
        Some(typ) => r is Ok && after.queue() == matmul_generic_queue(
            before.queue(),
            before.device_limits.alignment_words(),
            before.cache.references@.len() as int,
            buffer_dest,
            buffer_input1,
            buffer_input2,
            e,
            tiles,
            layout_input1.stride@,
            layout_input1.start_offset,
            layout_input2.stride@,
            layout_input2.start_offset,
            typ,
            function,
        ) && after.cache.references@ == matmul_generic_references(
            before.cache.references@,
            e,
            tiles,
            layout_input1.stride@,
            layout_input2.stride@,
        ) && after.device_limits == before.device_limits && after.shader == before.shader
            && after.cache.buffers == before.cache.buffers && after.cache.bindgroups
            == before.cache.bindgroups && after.cache.max_bindgroups == before.cache.max_bindgroups
            && after.cache.mappings == before.cache.mappings && after.use_cache
            == before.use_cache && after.matmul_alg == before.matmul_alg,
        None => r == Err::<(), WebGpuError>(WebGpuError::UnsupportedDType(dtype)) && after
            == before,
    }
}

/// Queues a matrix multiplication with the algorithm that the device is set to.
pub fn queue_matmul_buffer(
    dev: &mut WgpuDevice,
    buffer_dest: BufferReferenceId,
    buffer_input1: BufferReferenceId,
    buffer_input2: BufferReferenceId,
    b: u32,
    m: u32,
    n: u32,
    k: u32,
    layout_input1: &Layout,
    layout_input2: &Layout,
    dtype: DType,
) -> (r: Result<(), WebGpuError>)
    requires
        old(dev).wf(),
        match tiled_algorithm(old(dev).matmul_alg) {
            Some((tiles, _)) => matmul_generic_fits(
                *old(dev),
                buffer_dest,
                buffer_input1,
                buffer_input2,
                MatmulExtents { b, m, n, k },
                tiles,
                layout_input1.stride@,
                layout_input2.stride@,
            ),
            None => matmul_plain_fits(
                *old(dev),
                buffer_dest,
                buffer_input1,
                buffer_input2,
                MatmulExtents { b, m, n, k },
                if old(dev).matmul_alg == MatmulAlgorithm::Matmul1 {
                    u32::MAX as int
                } else {
                    usize::MAX as int
                },
            ),
        },
    ensures
        final(dev).wf(),
        match tiled_algorithm(old(dev).matmul_alg) {
            Some((tiles, function)) => matmul_generic_queued(
                *old(dev),
                *final(dev),
                r,
                buffer_dest,
                buffer_input1,
                buffer_input2,
                MatmulExtents { b, m, n, k },
                tiles,
                *layout_input1,
                *layout_input2,
                dtype,
                function,
            ),
            None => match dtype.kernel_dtype() {
                Some(typ) => r is Ok && if old(dev).matmul_alg == MatmulAlgorithm::Matmul1 {
                    queued(
                        *old(dev),
                        *final(dev),
                        matmul1_words(b, m, n, k, *layout_input1, *layout_input2),
                        Seq::<(Constants, u32)>::empty(),
                        Pipelines::Matmul(typ, MatmulFunctions::Matmul1),
                        not_inplaceable(),
                        BindGroupReferenceBase::Bindgroup2(buffer_dest, buffer_input1,
                            buffer_input2),
                        ((n + 15) / 16) as u32,
                        ((m + 15) / 16) as u32,
                        b,
                        (k * m * n) as usize,
                    )
                } else {
                    queued(
                        *old(dev),
                        *final(dev),
                        matmul_tiled_words(
                            b,
                            m,
                            n,
                            k,
                            layout_input1.stride@,
                            layout_input1.start_offset,
                            layout_input2.stride@,
                            layout_input2.start_offset,
                        ),
                        general_constants(
                            matmul_tiled_constants(layout_input1.stride@, layout_input2.stride@),
                        ),
                        Pipelines::Matmul(typ, MatmulFunctions::Matmul7),
                        not_inplaceable(),
                        BindGroupReferenceBase::Bindgroup2(buffer_dest, buffer_input1,
                            buffer_input2),
                        ((n + 15) / 16) as u32,
                        ((m + 15) / 16) as u32,
                        b,
                        (k * m * n) as usize,
                    )
                },
                None => r == Err::<(), WebGpuError>(WebGpuError::UnsupportedDType(dtype))
                    && *final(dev) == *old(dev),
            },
        },
{
    let alg: MatmulAlgorithm = dev.matmul_alg;
    match alg {
        MatmulAlgorithm::Matmul7 => queue_matmul7_buffer(
            dev,
            buffer_dest,
            buffer_input1,
            buffer_input2,
            b,
            m,
            n,
            k,
            layout_input1,
            layout_input2,
            dtype,
        ),
        MatmulAlgorithm::Matmul1 => queue_matmul_buffer1(
            dev,
            buffer_dest,
            buffer_input1,
            buffer_input2,
            b,
            m,
            n,
            k,
            layout_input1,
            layout_input2,
            dtype,
        ),
        MatmulAlgorithm::Matmul5 => queue_matmul5_buffer(
            dev,
            buffer_dest,
            buffer_input1,
            buffer_input2,
            b,
            m,
            n,
            k,
            layout_input1,
            layout_input2,
            dtype,
        ),
        MatmulAlgorithm::Matmul5_32_32 => queue_matmul_generic(
            dev,
            buffer_dest,
            buffer_input1,
            buffer_input2,
            b,
            m,
            n,
            k,
            layout_input1,
            layout_input2,
            dtype,
            32,
            32,
            16,
            MatmulFunctions::Matmul5Tile32x32,
        ),
        MatmulAlgorithm::Matuml5_64_64 => queue_matmul_generic(
            dev,
            buffer_dest,
            buffer_input1,
            buffer_input2,
            b,
            m,
            n,
            k,
            layout_input1,
            layout_input2,
            dtype,
            64,
            64,
            16,
            MatmulFunctions::Matmul5Tile64x64,
        ),
        MatmulAlgorithm::Matmul5_128_128 => queue_matmul_generic(
            dev,
            buffer_dest,
            buffer_input1,
            buffer_input2,
            b,
            m,
            n,
            k,
            layout_input1,
            layout_input2,
            dtype,
            128,
            128,
            16,
            MatmulFunctions::Matmul5Tile128x128,
        ),
        MatmulAlgorithm::Matmul5_64_64_8_8 => queue_matmul_generic(
            dev,
            buffer_dest,
            buffer_input1,
            buffer_input2,
            b,
            m,
            n,
            k,
            layout_input1,
            layout_input2,
            dtype,
            64,
            64,
            16,
            MatmulFunctions::Matmul5Tile64x64Vec8x8,
        ),
        MatmulAlgorithm::Matmul5_16_64 => queue_matmul_generic(
            dev,
            buffer_dest,
            buffer_input1,
            buffer_input2,
            b,
            m,
            n,
            k,
            layout_input1,
            layout_input2,
            dtype,
            16,
            64,
            16,
            MatmulFunctions::Matmul5Tile16x64,
        ),
    }
}

} // verus!

