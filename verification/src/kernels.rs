//! The closed set of compute kernels: families, entry points and specialization constants.
use vstd::prelude::*;
use crate::dtype::KernelDType;
use crate::dtype::WebGpuError;
use crate::shader::load_shader;
use crate::shader::Shader;

verus! {

/// The entry points of the nearest-neighbour upsampling kernels.
#[derive(Clone, Copy, Debug, PartialEq, Eq, Hash, Structural)]
pub enum UpsampleFunctions {
    Upsample1d,
    Upsample2d,
}

impl UpsampleFunctions {
    /// The name of the entry point in the program text.
    pub open spec fn entry_point(self) -> Seq<char> {
        match self {
            UpsampleFunctions::Upsample1d => "upsample1d"@,
            UpsampleFunctions::Upsample2d => "upsample2d"@,
        }
    }

    /// The name of the entry point in the program text.
    pub fn get_entry_point(&self) -> (r: &'static str)
        ensures
            r@ == self.entry_point(),
    {
        match self {
            UpsampleFunctions::Upsample1d => "upsample1d",
            UpsampleFunctions::Upsample2d => "upsample2d",
        }
    }
}

/// The entry points of the elementwise comparison kernels.
#[derive(Clone, Copy, Debug, PartialEq, Eq, Hash, Structural)]
pub enum CmpFunctions {
    CmpBufferFromBuffer,
}

impl CmpFunctions {
    /// The name of the entry point in the program text.
    pub open spec fn entry_point(self) -> Seq<char> {
        match self {
            CmpFunctions::CmpBufferFromBuffer => "cmp_buffer_from_buffer"@,
        }
    }

    /// The name of the entry point in the program text.
    pub fn get_entry_point(&self) -> (r: &'static str)
        ensures
            r@ == self.entry_point(),
    {
        match self {
            CmpFunctions::CmpBufferFromBuffer => "cmp_buffer_from_buffer",
        }
    }
}

/// The entry points of the element type conversion kernels.
#[derive(Clone, Copy, Debug, PartialEq, Eq, Hash, Structural)]
pub enum ConvertFunctions {
    ConvertF32ToU32,
    ConvertF32ToU8,
    ConvertU32ToF32,
    ConvertU32ToU8,
    ConvertU8ToF32,
}

impl ConvertFunctions {
    /// The name of the entry point in the program text.
    pub open spec fn entry_point(self) -> Seq<char> {
        match self {
            ConvertFunctions::ConvertF32ToU32 => "convert_f32_to_u32"@,
            ConvertFunctions::ConvertF32ToU8 => "convert_f32_to_u8"@,
            ConvertFunctions::ConvertU32ToF32 => "convert_u32_to_f32"@,
            ConvertFunctions::ConvertU32ToU8 => "convert_u32_to_u8"@,
            ConvertFunctions::ConvertU8ToF32 => "convert_u8_to_f32"@,
        }
    }

    /// The name of the entry point in the program text.
    pub fn get_entry_point(&self) -> (r: &'static str)
        ensures
            r@ == self.entry_point(),
    {
        match self {
            ConvertFunctions::ConvertF32ToU32 => "convert_f32_to_u32",
            ConvertFunctions::ConvertF32ToU8 => "convert_f32_to_u8",
            ConvertFunctions::ConvertU32ToF32 => "convert_u32_to_f32",
            ConvertFunctions::ConvertU32ToU8 => "convert_u32_to_u8",
            ConvertFunctions::ConvertU8ToF32 => "convert_u8_to_f32",
        }
    }
}

/// The entry points of the reduction kernels.
#[derive(Clone, Copy, Debug, PartialEq, Eq, Hash, Structural)]
pub enum ReduceFunctions {
    ReduceFromBuffer,
}

impl ReduceFunctions {
    /// The name of the entry point in the program text.
    pub open spec fn entry_point(self) -> Seq<char> {
        match self {
            ReduceFunctions::ReduceFromBuffer => "reduce_from_buffer"@,
        }
    }

    /// The name of the entry point in the program text.
    pub fn get_entry_point(&self) -> (r: &'static str)
        ensures
            r@ == self.entry_point(),
    {
        match self {
            ReduceFunctions::ReduceFromBuffer => "reduce_from_buffer",
        }
    }
}

/// The entry points of the index-select kernels.
#[derive(Clone, Copy, Debug, PartialEq, Eq, Hash, Structural)]
pub enum IndexSelectFunctions {
    IndexSelect,
}

impl IndexSelectFunctions {
    /// The name of the entry point in the program text.
    pub open spec fn entry_point(self) -> Seq<char> {
        match self {
            IndexSelectFunctions::IndexSelect => "index_select"@,
        }
    }

    /// The name of the entry point in the program text.
    pub fn get_entry_point(&self) -> (r: &'static str)
        ensures
            r@ == self.entry_point(),
    {
        match self {
            IndexSelectFunctions::IndexSelect => "index_select",
        }
    }
}

/// The entry points of the one-dimensional convolution kernels.
#[derive(Clone, Copy, Debug, PartialEq, Eq, Hash, Structural)]
pub enum Conv1dFunctions {
    Conv1d,
    Conv1dTranspose,
}

impl Conv1dFunctions {
    /// The name of the entry point in the program text.
    pub open spec fn entry_point(self) -> Seq<char> {
        match self {
            Conv1dFunctions::Conv1d => "conv1d"@,
            Conv1dFunctions::Conv1dTranspose => "conv1d_transpose"@,
        }
    }

    /// The name of the entry point in the program text.
    pub fn get_entry_point(&self) -> (r: &'static str)
        ensures
            r@ == self.entry_point(),
    {
        match self {
            Conv1dFunctions::Conv1d => "conv1d",
            Conv1dFunctions::Conv1dTranspose => "conv1d_transpose",
        }
    }
}

/// The entry points of the gather and scatter kernels.
#[derive(Clone, Copy, Debug, PartialEq, Eq, Hash, Structural)]
pub enum GatherFunctions {
    Gather,
    IndexAddInplace,
    ScatterAddInplace,
}

impl GatherFunctions {
    /// The name of the entry point in the program text.
    pub open spec fn entry_point(self) -> Seq<char> {
        match self {
            GatherFunctions::Gather => "gather"@,
            GatherFunctions::IndexAddInplace => "index_add_inplace"@,
            GatherFunctions::ScatterAddInplace => "scatter_add_inplace"@,
        }
    }

    /// The name of the entry point in the program text.
    pub fn get_entry_point(&self) -> (r: &'static str)
        ensures
            r@ == self.entry_point(),
    {
        match self {
            GatherFunctions::Gather => "gather",
            GatherFunctions::IndexAddInplace => "index_add_inplace",
            GatherFunctions::ScatterAddInplace => "scatter_add_inplace",
        }
    }
}

/// The entry points of the elementwise unary kernels.
#[derive(Clone, Copy, Debug, PartialEq, Eq, Hash, Structural)]
pub enum UnaryFunctions {
    UnaryInplace,
    UnaryFromBuffer,
    UnaryInplaceContiguous,
    UnaryFromBufferContiguous,
}

impl UnaryFunctions {
    /// The name of the entry point in the program text.
    pub open spec fn entry_point(self) -> Seq<char> {
        match self {
            UnaryFunctions::UnaryInplace => "unary_inplace"@,
            UnaryFunctions::UnaryFromBuffer => "unary_from_buffer"@,
            UnaryFunctions::UnaryInplaceContiguous => "unary_inplace_contiguous"@,
            UnaryFunctions::UnaryFromBufferContiguous => "unary_from_buffer_contiguous"@,
        }
    }

    /// The name of the entry point in the program text.
    pub fn get_entry_point(&self) -> (r: &'static str)
        ensures
            r@ == self.entry_point(),
    {
        match self {
            UnaryFunctions::UnaryInplace => "unary_inplace",
            UnaryFunctions::UnaryFromBuffer => "unary_from_buffer",
            UnaryFunctions::UnaryInplaceContiguous => "unary_inplace_contiguous",
            UnaryFunctions::UnaryFromBufferContiguous => "unary_from_buffer_contiguous",
        }
    }
}

/// The entry points of the elementwise binary kernels.
#[derive(Clone, Copy, Debug, PartialEq, Eq, Hash, Structural)]
pub enum BinaryFunctions {
    BinaryBufferFromBuffer,
}

impl BinaryFunctions {
    /// The name of the entry point in the program text.
    pub open spec fn entry_point(self) -> Seq<char> {
        match self {
            BinaryFunctions::BinaryBufferFromBuffer => "binary_buffer_from_buffer"@,
        }
    }

    /// The name of the entry point in the program text.
    pub fn get_entry_point(&self) -> (r: &'static str)
        ensures
            r@ == self.entry_point(),
    {
        match self {
            BinaryFunctions::BinaryBufferFromBuffer => "binary_buffer_from_buffer",
        }
    }
}

/// The entry points of the two-dimensional convolution kernels.
#[derive(Clone, Copy, Debug, PartialEq, Eq, Hash, Structural)]
pub enum Conv2dFunctions {
    Conv2d,
    Conv2dTranspose,
}

impl Conv2dFunctions {
    /// The name of the entry point in the program text.
    pub open spec fn entry_point(self) -> Seq<char> {
        match self {
            Conv2dFunctions::Conv2d => "conv2d"@,
            Conv2dFunctions::Conv2dTranspose => "conv2d_transpose"@,
        }
    }

    /// The name of the entry point in the program text.
    pub fn get_entry_point(&self) -> (r: &'static str)
        ensures
            r@ == self.entry_point(),
    {
        match self {
            Conv2dFunctions::Conv2d => "conv2d",
            Conv2dFunctions::Conv2dTranspose => "conv2d_transpose",
        }
    }
}

/// The entry points of the matrix multiplication kernels.
#[derive(Clone, Copy, Debug, PartialEq, Eq, Hash, Structural)]
pub enum MatmulFunctions {
    Matmul1,
    Matmul1End,
    Matmul7,
    Matmul5,
    Matmul5Tile32x32,
    Matmul5Tile64x64,
    Matmul5Tile128x128,
    Matmul5Tile64x64Vec8x8,
    Matmul5Tile16x64,
}

impl MatmulFunctions {
    /// The name of the entry point in the program text.
    pub open spec fn entry_point(self) -> Seq<char> {
        match self {
            MatmulFunctions::Matmul1 => "matmul1"@,
            MatmulFunctions::Matmul1End => "matmul1_end"@,
            MatmulFunctions::Matmul7 => "matmul7"@,
            MatmulFunctions::Matmul5 => "matmul5"@,
            MatmulFunctions::Matmul5Tile32x32 => "matmul5_tile32x32"@,
            MatmulFunctions::Matmul5Tile64x64 => "matmul5_tile64x64"@,
            MatmulFunctions::Matmul5Tile128x128 => "matmul5_tile128x128"@,
            MatmulFunctions::Matmul5Tile64x64Vec8x8 => "matmul5_tile64x64_vec8x8"@,
            MatmulFunctions::Matmul5Tile16x64 => "matmul5_tile16x64"@,
        }
    }

    /// The name of the entry point in the program text.
    pub fn get_entry_point(&self) -> (r: &'static str)
        ensures
            r@ == self.entry_point(),
    {
        match self {
            MatmulFunctions::Matmul1 => "matmul1",
            MatmulFunctions::Matmul1End => "matmul1_end",
            MatmulFunctions::Matmul7 => "matmul7",
            MatmulFunctions::Matmul5 => "matmul5",
            MatmulFunctions::Matmul5Tile32x32 => "matmul5_tile32x32",
            MatmulFunctions::Matmul5Tile64x64 => "matmul5_tile64x64",
            MatmulFunctions::Matmul5Tile128x128 => "matmul5_tile128x128",
            MatmulFunctions::Matmul5Tile64x64Vec8x8 => "matmul5_tile64x64_vec8x8",
            MatmulFunctions::Matmul5Tile16x64 => "matmul5_tile16x64",
        }
    }
}

/// The entry points of the RMS normalisation kernels.
#[derive(Clone, Copy, Debug, PartialEq, Eq, Hash, Structural)]
pub enum RmsNormFunctions {
    RmsNorm,
}

impl RmsNormFunctions {
    /// The name of the entry point in the program text.
    pub open spec fn entry_point(self) -> Seq<char> {
        match self {
            RmsNormFunctions::RmsNorm => "rms_norm"@,
        }
    }

    /// The name of the entry point in the program text.
    pub fn get_entry_point(&self) -> (r: &'static str)
        ensures
            r@ == self.entry_point(),
    {
        match self {
            RmsNormFunctions::RmsNorm => "rms_norm",
        }
    }
}

/// The entry points of the softmax kernels.
#[derive(Clone, Copy, Debug, PartialEq, Eq, Hash, Structural)]
pub enum SoftmaxFunctions {
    Softmax,
}

impl SoftmaxFunctions {
    /// The name of the entry point in the program text.
    pub open spec fn entry_point(self) -> Seq<char> {
        match self {
            SoftmaxFunctions::Softmax => "softmax"@,
        }
    }

    /// The name of the entry point in the program text.
    pub fn get_entry_point(&self) -> (r: &'static str)
        ensures
            r@ == self.entry_point(),
    {
        match self {
            SoftmaxFunctions::Softmax => "softmax",
        }
    }
}

/// The entry points of the conditional selection kernels.
#[derive(Clone, Copy, Debug, PartialEq, Eq, Hash, Structural)]
pub enum WhereCondFunctions {
    WhereCondU32,
}

impl WhereCondFunctions {
    /// The name of the entry point in the program text.
    pub open spec fn entry_point(self) -> Seq<char> {
        match self {
            WhereCondFunctions::WhereCondU32 => "where_cond_u32"@,
        }
    }

    /// The name of the entry point in the program text.
    pub fn get_entry_point(&self) -> (r: &'static str)
        ensures
            r@ == self.entry_point(),
    {
        match self {
            WhereCondFunctions::WhereCondU32 => "where_cond_u32",
        }
    }
}

/// The entry points of the copy kernels.
#[derive(Clone, Copy, Debug, PartialEq, Eq, Hash, Structural)]
pub enum CopyFunctions {
    Copy,
    Copy2d,
    Copy3d,
    Copy3dPadded,
    CopyStrided,
}

impl CopyFunctions {
    /// The name of the entry point in the program text.
    pub open spec fn entry_point(self) -> Seq<char> {
        match self {
            CopyFunctions::Copy => "copy"@,
            CopyFunctions::Copy2d => "copy2d"@,
            CopyFunctions::Copy3d => "copy3d"@,
            CopyFunctions::Copy3dPadded => "copy3d_padded"@,
            CopyFunctions::CopyStrided => "copy_strided"@,
        }
    }

    /// The name of the entry point in the program text.
    pub fn get_entry_point(&self) -> (r: &'static str)
        ensures
            r@ == self.entry_point(),
    {
        match self {
            CopyFunctions::Copy => "copy",
            CopyFunctions::Copy2d => "copy2d",
            CopyFunctions::Copy3d => "copy3d",
            CopyFunctions::Copy3dPadded => "copy3d_padded",
            CopyFunctions::CopyStrided => "copy_strided",
        }
    }
}

/// The entry points of the pooling kernels.
#[derive(Clone, Copy, Debug, PartialEq, Eq, Hash, Structural)]
pub enum Pool2dFunctions {
    AvgPool2d,
    MaxPool2d,
}

impl Pool2dFunctions {
    /// The name of the entry point in the program text.
    pub open spec fn entry_point(self) -> Seq<char> {
        match self {
            Pool2dFunctions::AvgPool2d => "avg_pool2d"@,
            Pool2dFunctions::MaxPool2d => "max_pool2d"@,
        }
    }

    /// The name of the entry point in the program text.
    pub fn get_entry_point(&self) -> (r: &'static str)
        ensures
            r@ == self.entry_point(),
    {
        match self {
            Pool2dFunctions::AvgPool2d => "avg_pool2d",
            Pool2dFunctions::MaxPool2d => "max_pool2d",
        }
    }
}

/// A compute kernel: its family, the element type it is built for and its entry point.
#[derive(Clone, Copy, Debug, PartialEq, Eq, Hash, Structural)]
pub enum Pipelines {
    Upsample(KernelDType, UpsampleFunctions),
    Cmp(KernelDType, CmpFunctions),
    Convert(KernelDType, ConvertFunctions),
    Reduce(KernelDType, ReduceFunctions),
    IndexSelect(KernelDType, IndexSelectFunctions),
    Conv1d(KernelDType, Conv1dFunctions),
    Gather(KernelDType, GatherFunctions),
    Unary(KernelDType, UnaryFunctions),
    Binary(KernelDType, BinaryFunctions),
    Conv2d(KernelDType, Conv2dFunctions),
    Matmul(KernelDType, MatmulFunctions),
    RmsNorm(KernelDType, RmsNormFunctions),
    Softmax(KernelDType, SoftmaxFunctions),
    WhereCond(KernelDType, WhereCondFunctions),
    Copy(KernelDType, CopyFunctions),
    Pool2d(KernelDType, Pool2dFunctions),
}

/// A shader module: one kernel family built for one element type.
#[derive(Clone, Copy, Debug, PartialEq, Eq, Hash, Structural)]
pub enum Shaders {
    Upsample(KernelDType),
    Cmp(KernelDType),
    Convert(KernelDType),
    Reduce(KernelDType),
    IndexSelect(KernelDType),
    Conv1d(KernelDType),
    Gather(KernelDType),
    Unary(KernelDType),
    Binary(KernelDType),
    Conv2d(KernelDType),
    Matmul(KernelDType),
    RmsNorm(KernelDType),
    Softmax(KernelDType),
    WhereCond(KernelDType),
    Copy(KernelDType),
    Pool2d(KernelDType),
}

impl Pipelines {
    /// The name of the kernel's entry point in the program text.
    pub open spec fn entry_point(self) -> Seq<char> {
        match self {
            Pipelines::Upsample(_, f) => f.entry_point(),
            Pipelines::Cmp(_, f) => f.entry_point(),
            Pipelines::Convert(_, f) => f.entry_point(),
            Pipelines::Reduce(_, f) => f.entry_point(),
            Pipelines::IndexSelect(_, f) => f.entry_point(),
            Pipelines::Conv1d(_, f) => f.entry_point(),
            Pipelines::Gather(_, f) => f.entry_point(),
            Pipelines::Unary(_, f) => f.entry_point(),
            Pipelines::Binary(_, f) => f.entry_point(),
            Pipelines::Conv2d(_, f) => f.entry_point(),
            Pipelines::Matmul(_, f) => f.entry_point(),
            Pipelines::RmsNorm(_, f) => f.entry_point(),
            Pipelines::Softmax(_, f) => f.entry_point(),
            Pipelines::WhereCond(_, f) => f.entry_point(),
            Pipelines::Copy(_, f) => f.entry_point(),
            Pipelines::Pool2d(_, f) => f.entry_point(),
        }
    }

    /// The shader module the kernel belongs to.
    pub open spec fn shader(self) -> Shaders {
        match self {
            Pipelines::Upsample(typ, _) => Shaders::Upsample(typ),
            Pipelines::Cmp(typ, _) => Shaders::Cmp(typ),
            Pipelines::Convert(typ, _) => Shaders::Convert(typ),
            Pipelines::Reduce(typ, _) => Shaders::Reduce(typ),
            Pipelines::IndexSelect(typ, _) => Shaders::IndexSelect(typ),
            Pipelines::Conv1d(typ, _) => Shaders::Conv1d(typ),
            Pipelines::Gather(typ, _) => Shaders::Gather(typ),
            Pipelines::Unary(typ, _) => Shaders::Unary(typ),
            Pipelines::Binary(typ, _) => Shaders::Binary(typ),
            Pipelines::Conv2d(typ, _) => Shaders::Conv2d(typ),
            Pipelines::Matmul(typ, _) => Shaders::Matmul(typ),
            Pipelines::RmsNorm(typ, _) => Shaders::RmsNorm(typ),
            Pipelines::Softmax(typ, _) => Shaders::Softmax(typ),
            Pipelines::WhereCond(typ, _) => Shaders::WhereCond(typ),
            Pipelines::Copy(typ, _) => Shaders::Copy(typ),
            Pipelines::Pool2d(typ, _) => Shaders::Pool2d(typ),
        }
    }

    /// The name of the kernel's entry point in the program text.
    pub fn get_entry_point(&self) -> (r: &'static str)
        ensures
            r@ == self.entry_point(),
    {
        match self {
            Pipelines::Upsample(_, f) => f.get_entry_point(),
            Pipelines::Cmp(_, f) => f.get_entry_point(),
            Pipelines::Convert(_, f) => f.get_entry_point(),
            Pipelines::Reduce(_, f) => f.get_entry_point(),
            Pipelines::IndexSelect(_, f) => f.get_entry_point(),
            Pipelines::Conv1d(_, f) => f.get_entry_point(),
            Pipelines::Gather(_, f) => f.get_entry_point(),
            Pipelines::Unary(_, f) => f.get_entry_point(),
            Pipelines::Binary(_, f) => f.get_entry_point(),
            Pipelines::Conv2d(_, f) => f.get_entry_point(),
            Pipelines::Matmul(_, f) => f.get_entry_point(),
            Pipelines::RmsNorm(_, f) => f.get_entry_point(),
            Pipelines::Softmax(_, f) => f.get_entry_point(),
            Pipelines::WhereCond(_, f) => f.get_entry_point(),
            Pipelines::Copy(_, f) => f.get_entry_point(),
            Pipelines::Pool2d(_, f) => f.get_entry_point(),
        }
    }

    /// The shader module the kernel belongs to.
    pub fn get_shader(&self) -> (r: Shaders)
        ensures
            r == self.shader(),
    {
        match self {
            Pipelines::Upsample(typ, _) => Shaders::Upsample(*typ),
            Pipelines::Cmp(typ, _) => Shaders::Cmp(*typ),
            Pipelines::Convert(typ, _) => Shaders::Convert(*typ),
            Pipelines::Reduce(typ, _) => Shaders::Reduce(*typ),
            Pipelines::IndexSelect(typ, _) => Shaders::IndexSelect(*typ),
            Pipelines::Conv1d(typ, _) => Shaders::Conv1d(*typ),
            Pipelines::Gather(typ, _) => Shaders::Gather(*typ),
            Pipelines::Unary(typ, _) => Shaders::Unary(*typ),
            Pipelines::Binary(typ, _) => Shaders::Binary(*typ),
            Pipelines::Conv2d(typ, _) => Shaders::Conv2d(*typ),
            Pipelines::Matmul(typ, _) => Shaders::Matmul(*typ),
            Pipelines::RmsNorm(typ, _) => Shaders::RmsNorm(*typ),
            Pipelines::Softmax(typ, _) => Shaders::Softmax(*typ),
            Pipelines::WhereCond(typ, _) => Shaders::WhereCond(*typ),
            Pipelines::Copy(typ, _) => Shaders::Copy(*typ),
            Pipelines::Pool2d(typ, _) => Shaders::Pool2d(*typ),
        }
    }

    /// Looks the kernel's program up in the registry: the path of the program file of its
    /// shader module, or a rejection where the registry has none for this element type.
    pub fn load_shader(&self) -> (r: Result<&'static str, WebGpuError>)
        ensures
            self.shader().shader_key().is_registered() ==> r is Ok && r->Ok_0@
                == self.shader().shader_key().program_path(),
            !self.shader().shader_key().is_registered() ==> r == Err::<&'static str, WebGpuError>(
                WebGpuError::ShaderNotFound(self.shader().shader_key()),
            ),
    {
        self.get_shader().load_shader()
    }
}

impl Shaders {
    /// The element type the module is built for.
    pub open spec fn dtype(self) -> KernelDType {
        match self {
            Shaders::Upsample(typ) => typ,
            Shaders::Cmp(typ) => typ,
            Shaders::Convert(typ) => typ,
            Shaders::Reduce(typ) => typ,
            Shaders::IndexSelect(typ) => typ,
            Shaders::Conv1d(typ) => typ,
            Shaders::Gather(typ) => typ,
            Shaders::Unary(typ) => typ,
            Shaders::Binary(typ) => typ,
            Shaders::Conv2d(typ) => typ,
            Shaders::Matmul(typ) => typ,
            Shaders::RmsNorm(typ) => typ,
            Shaders::Softmax(typ) => typ,
            Shaders::WhereCond(typ) => typ,
            Shaders::Copy(typ) => typ,
            Shaders::Pool2d(typ) => typ,
        }
    }

    /// The registry key of the module's program file. The one-dimensional convolutions
    /// share the program file of the two-dimensional ones.
    pub open spec fn shader_key(self) -> Shader {
        match self {
            Shaders::Upsample(typ) => Shader::Upsample(typ.spec_tensor_dtype()),
            Shaders::Cmp(typ) => Shader::Cmp(typ.spec_tensor_dtype()),
            Shaders::Convert(typ) => Shader::Convert(typ.spec_tensor_dtype()),
            Shaders::Reduce(typ) => Shader::Reduce(typ.spec_tensor_dtype()),
            Shaders::IndexSelect(typ) => Shader::IndexSelect(typ.spec_tensor_dtype()),
            Shaders::Conv1d(typ) => Shader::Conv2D(typ.spec_tensor_dtype()),
            Shaders::Gather(typ) => Shader::Gather(typ.spec_tensor_dtype()),
            Shaders::Unary(typ) => Shader::Unary(typ.spec_tensor_dtype()),
            Shaders::Binary(typ) => Shader::Binary(typ.spec_tensor_dtype()),
            Shaders::Conv2d(typ) => Shader::Conv2D(typ.spec_tensor_dtype()),
            Shaders::Matmul(typ) => Shader::Matmul(typ.spec_tensor_dtype()),
            Shaders::RmsNorm(typ) => Shader::RmsNorm(typ.spec_tensor_dtype()),
            Shaders::Softmax(typ) => Shader::Softmax(typ.spec_tensor_dtype()),
            Shaders::WhereCond(typ) => Shader::WhereCond(typ.spec_tensor_dtype()),
            Shaders::Copy(typ) => Shader::Copy(typ.spec_tensor_dtype()),
            Shaders::Pool2d(typ) => Shader::Pool2d(typ.spec_tensor_dtype()),
        }
    }

    /// The shader module itself: a module is its own key.
    pub fn get_shader(&self) -> (r: Shaders)
        ensures
            r == *self,
    {
        match self {
            Shaders::Upsample(typ) => Shaders::Upsample(*typ),
            Shaders::Cmp(typ) => Shaders::Cmp(*typ),
            Shaders::Convert(typ) => Shaders::Convert(*typ),
            Shaders::Reduce(typ) => Shaders::Reduce(*typ),
            Shaders::IndexSelect(typ) => Shaders::IndexSelect(*typ),
            Shaders::Conv1d(typ) => Shaders::Conv1d(*typ),
            Shaders::Gather(typ) => Shaders::Gather(*typ),
            Shaders::Unary(typ) => Shaders::Unary(*typ),
            Shaders::Binary(typ) => Shaders::Binary(*typ),
            Shaders::Conv2d(typ) => Shaders::Conv2d(*typ),
            Shaders::Matmul(typ) => Shaders::Matmul(*typ),
            Shaders::RmsNorm(typ) => Shaders::RmsNorm(*typ),
            Shaders::Softmax(typ) => Shaders::Softmax(*typ),
            Shaders::WhereCond(typ) => Shaders::WhereCond(*typ),
            Shaders::Copy(typ) => Shaders::Copy(*typ),
            Shaders::Pool2d(typ) => Shaders::Pool2d(*typ),
        }
    }

    /// The registry key of the module's program file.
    pub fn get_shader_key(&self) -> (r: Shader)
        ensures
            r == self.shader_key(),
    {
        match self {
            Shaders::Upsample(typ) => Shader::Upsample(typ.tensor_dtype()),
            Shaders::Cmp(typ) => Shader::Cmp(typ.tensor_dtype()),
            Shaders::Convert(typ) => Shader::Convert(typ.tensor_dtype()),
            Shaders::Reduce(typ) => Shader::Reduce(typ.tensor_dtype()),
            Shaders::IndexSelect(typ) => Shader::IndexSelect(typ.tensor_dtype()),
            Shaders::Conv1d(typ) => Shader::Conv2D(typ.tensor_dtype()),
            Shaders::Gather(typ) => Shader::Gather(typ.tensor_dtype()),
            Shaders::Unary(typ) => Shader::Unary(typ.tensor_dtype()),
            Shaders::Binary(typ) => Shader::Binary(typ.tensor_dtype()),
            Shaders::Conv2d(typ) => Shader::Conv2D(typ.tensor_dtype()),
            Shaders::Matmul(typ) => Shader::Matmul(typ.tensor_dtype()),
            Shaders::RmsNorm(typ) => Shader::RmsNorm(typ.tensor_dtype()),
            Shaders::Softmax(typ) => Shader::Softmax(typ.tensor_dtype()),
            Shaders::WhereCond(typ) => Shader::WhereCond(typ.tensor_dtype()),
            Shaders::Copy(typ) => Shader::Copy(typ.tensor_dtype()),
            Shaders::Pool2d(typ) => Shader::Pool2d(typ.tensor_dtype()),
        }
    }

    /// Looks the module's program up in the registry: the path of its program file, or a
    /// rejection where the registry has none for this element type.
    pub fn load_shader(&self) -> (r: Result<&'static str, WebGpuError>)
        ensures
            self.shader_key().is_registered() ==> r is Ok && r->Ok_0@
                == self.shader_key().program_path(),
            !self.shader_key().is_registered() ==> r == Err::<&'static str, WebGpuError>(
                WebGpuError::ShaderNotFound(self.shader_key()),
            ),
    {
        load_shader(self.get_shader_key())
    }
}

/// The specialization constants a program text may declare.
#[derive(Clone, Copy, Debug, PartialEq, Eq, Hash, Structural)]
pub enum Constants {
    ConstIsStartoffsetZero2,
    ConstIsStartoffsetZero3,
    Constv5,
    Constv6,
    Constv7,
    ConstIsContiguous2,
    Constv1,
    Constv2,
    Constv0,
    Constv3,
    ConstDims1,
    ConstIsContiguous3,
    Constv9,
    Constv4,
    ConstDims3,
    ConstDims2,
    Constv8,
    ConstIsStartoffsetZero1,
    ConstIsContiguous1,
}

/// The number of general-purpose specialization constants, `Constv0` onwards.
pub const GENERAL_CONSTANTS: usize = 10;

impl Constants {
    /// The name of the constant in the program text.
    pub open spec fn entry_point(self) -> Seq<char> {
        match self {
            Constants::ConstIsStartoffsetZero2 => "CONST_IS_STARTOFFSET_ZERO2"@,
            Constants::ConstIsStartoffsetZero3 => "CONST_IS_STARTOFFSET_ZERO3"@,
            Constants::Constv5 => "CONSTV_5"@,
            Constants::Constv6 => "CONSTV_6"@,
            Constants::Constv7 => "CONSTV_7"@,
            Constants::ConstIsContiguous2 => "CONST_IS_CONTIGUOUS2"@,
            Constants::Constv1 => "CONSTV_1"@,
            Constants::Constv2 => "CONSTV_2"@,
            Constants::Constv0 => "CONSTV_0"@,
            Constants::Constv3 => "CONSTV_3"@,
            Constants::ConstDims1 => "CONST_DIMS1"@,
            Constants::ConstIsContiguous3 => "CONST_IS_CONTIGUOUS3"@,
            Constants::Constv9 => "CONSTV_9"@,
            Constants::Constv4 => "CONSTV_4"@,
            Constants::ConstDims3 => "CONST_DIMS3"@,
            Constants::ConstDims2 => "CONST_DIMS2"@,
            Constants::Constv8 => "CONSTV_8"@,
            Constants::ConstIsStartoffsetZero1 => "CONST_IS_STARTOFFSET_ZERO1"@,
            Constants::ConstIsContiguous1 => "CONST_IS_CONTIGUOUS1"@,
        }
    }

    /// The general-purpose constant with the given number.
    pub open spec fn general(index: int) -> Constants {
        if index == 0 {
            Constants::Constv0
        } else if index == 1 {
            Constants::Constv1
        } else if index == 2 {
            Constants::Constv2
        } else if index == 3 {
            Constants::Constv3
        } else if index == 4 {
            Constants::Constv4
        } else if index == 5 {
            Constants::Constv5
        } else if index == 6 {
            Constants::Constv6
        } else if index == 7 {
            Constants::Constv7
        } else if index == 8 {
            Constants::Constv8
        } else {
            Constants::Constv9
        }
    }

    /// The name of the constant in the program text.
    pub fn get_entry_point(&self) -> (r: &'static str)
        ensures
            r@ == self.entry_point(),
    {
        match self {
            Constants::ConstIsStartoffsetZero2 => "CONST_IS_STARTOFFSET_ZERO2",
            Constants::ConstIsStartoffsetZero3 => "CONST_IS_STARTOFFSET_ZERO3",
            Constants::Constv5 => "CONSTV_5",
            Constants::Constv6 => "CONSTV_6",
            Constants::Constv7 => "CONSTV_7",
            Constants::ConstIsContiguous2 => "CONST_IS_CONTIGUOUS2",
            Constants::Constv1 => "CONSTV_1",
            Constants::Constv2 => "CONSTV_2",
            Constants::Constv0 => "CONSTV_0",
            Constants::Constv3 => "CONSTV_3",
            Constants::ConstDims1 => "CONST_DIMS1",
            Constants::ConstIsContiguous3 => "CONST_IS_CONTIGUOUS3",
            Constants::Constv9 => "CONSTV_9",
            Constants::Constv4 => "CONSTV_4",
            Constants::ConstDims3 => "CONST_DIMS3",
            Constants::ConstDims2 => "CONST_DIMS2",
            Constants::Constv8 => "CONSTV_8",
            Constants::ConstIsStartoffsetZero1 => "CONST_IS_STARTOFFSET_ZERO1",
            Constants::ConstIsContiguous1 => "CONST_IS_CONTIGUOUS1",
        }
    }

    /// The general-purpose constant with the given number.
    pub fn get_const(index: usize) -> (r: Constants)
        requires
            index < GENERAL_CONSTANTS,
        ensures
            r == Constants::general(index as int),
    {
        if index == 0 {
            Constants::Constv0
        } else if index == 1 {
            Constants::Constv1
        } else if index == 2 {
            Constants::Constv2
        } else if index == 3 {
            Constants::Constv3
        } else if index == 4 {
            Constants::Constv4
        } else if index == 5 {
            Constants::Constv5
        } else if index == 6 {
            Constants::Constv6
        } else if index == 7 {
            Constants::Constv7
        } else if index == 8 {
            Constants::Constv8
        } else {
            Constants::Constv9
        }
    }
}

impl UpsampleFunctions {
    /// The number of the entry point within its family.
    pub open spec fn code(self) -> u8 {
        match self {
            UpsampleFunctions::Upsample1d => 0,
            UpsampleFunctions::Upsample2d => 1,
        }
    }

    /// The number of the entry point within its family.
    pub fn get_code(&self) -> (r: u8)
        ensures
            r == self.code(),
    {
        match self {
            UpsampleFunctions::Upsample1d => 0,
            UpsampleFunctions::Upsample2d => 1,
        }
    }
}

impl CmpFunctions {
    /// The number of the entry point within its family.
    pub open spec fn code(self) -> u8 {
        match self {
            CmpFunctions::CmpBufferFromBuffer => 0,
        }
    }

    /// The number of the entry point within its family.
    pub fn get_code(&self) -> (r: u8)
        ensures
            r == self.code(),
    {
        match self {
            CmpFunctions::CmpBufferFromBuffer => 0,
        }
    }
}

impl ConvertFunctions {
    /// The number of the entry point within its family.
    pub open spec fn code(self) -> u8 {
        match self {
            ConvertFunctions::ConvertF32ToU32 => 0,
            ConvertFunctions::ConvertF32ToU8 => 1,
            ConvertFunctions::ConvertU32ToF32 => 2,
            ConvertFunctions::ConvertU32ToU8 => 3,
            ConvertFunctions::ConvertU8ToF32 => 4,
        }
    }

    /// The number of the entry point within its family.
    pub fn get_code(&self) -> (r: u8)
        ensures
            r == self.code(),
    {
        match self {
            ConvertFunctions::ConvertF32ToU32 => 0,
            ConvertFunctions::ConvertF32ToU8 => 1,
            ConvertFunctions::ConvertU32ToF32 => 2,
            ConvertFunctions::ConvertU32ToU8 => 3,
            ConvertFunctions::ConvertU8ToF32 => 4,
        }
    }
}

impl ReduceFunctions {
    /// The number of the entry point within its family.
    pub open spec fn code(self) -> u8 {
        match self {
            ReduceFunctions::ReduceFromBuffer => 0,
        }
    }

    /// The number of the entry point within its family.
    pub fn get_code(&self) -> (r: u8)
        ensures
            r == self.code(),
    {
        match self {
            ReduceFunctions::ReduceFromBuffer => 0,
        }
    }
}

impl IndexSelectFunctions {
    /// The number of the entry point within its family.
    pub open spec fn code(self) -> u8 {
        match self {
            IndexSelectFunctions::IndexSelect => 0,
        }
    }

    /// The number of the entry point within its family.
    pub fn get_code(&self) -> (r: u8)
        ensures
            r == self.code(),
    {
        match self {
            IndexSelectFunctions::IndexSelect => 0,
        }
    }
}

impl Conv1dFunctions {
    /// The number of the entry point within its family.
    pub open spec fn code(self) -> u8 {
        match self {
            Conv1dFunctions::Conv1d => 0,
            Conv1dFunctions::Conv1dTranspose => 1,
        }
    }

    /// The number of the entry point within its family.
    pub fn get_code(&self) -> (r: u8)
        ensures
            r == self.code(),
    {
        match self {
            Conv1dFunctions::Conv1d => 0,
            Conv1dFunctions::Conv1dTranspose => 1,
        }
    }
}

impl GatherFunctions {
    /// The number of the entry point within its family.
    pub open spec fn code(self) -> u8 {
        match self {
            GatherFunctions::Gather => 0,
            GatherFunctions::IndexAddInplace => 1,
            GatherFunctions::ScatterAddInplace => 2,
        }
    }

    /// The number of the entry point within its family.
    pub fn get_code(&self) -> (r: u8)
        ensures
            r == self.code(),
    {
        match self {
            GatherFunctions::Gather => 0,
            GatherFunctions::IndexAddInplace => 1,
            GatherFunctions::ScatterAddInplace => 2,
        }
    }
}

impl UnaryFunctions {
    /// The number of the entry point within its family.
    pub open spec fn code(self) -> u8 {
        match self {
            UnaryFunctions::UnaryInplace => 0,
            UnaryFunctions::UnaryFromBuffer => 1,
            UnaryFunctions::UnaryInplaceContiguous => 2,
            UnaryFunctions::UnaryFromBufferContiguous => 3,
        }
    }

    /// The number of the entry point within its family.
    pub fn get_code(&self) -> (r: u8)
        ensures
            r == self.code(),
    {
        match self {
            UnaryFunctions::UnaryInplace => 0,
            UnaryFunctions::UnaryFromBuffer => 1,
            UnaryFunctions::UnaryInplaceContiguous => 2,
            UnaryFunctions::UnaryFromBufferContiguous => 3,
        }
    }
}

impl BinaryFunctions {
    /// The number of the entry point within its family.
    pub open spec fn code(self) -> u8 {
        match self {
            BinaryFunctions::BinaryBufferFromBuffer => 0,
        }
    }

    /// The number of the entry point within its family.
    pub fn get_code(&self) -> (r: u8)
        ensures
            r == self.code(),
    {
        match self {
            BinaryFunctions::BinaryBufferFromBuffer => 0,
        }
    }
}

impl Conv2dFunctions {
    /// The number of the entry point within its family.
    pub open spec fn code(self) -> u8 {
        match self {
            Conv2dFunctions::Conv2d => 0,
            Conv2dFunctions::Conv2dTranspose => 1,
        }
    }

    /// The number of the entry point within its family.
    pub fn get_code(&self) -> (r: u8)
        ensures
            r == self.code(),
    {
        match self {
            Conv2dFunctions::Conv2d => 0,
            Conv2dFunctions::Conv2dTranspose => 1,
        }
    }
}

impl MatmulFunctions {
    /// The number of the entry point within its family.
    pub open spec fn code(self) -> u8 {
        match self {
            MatmulFunctions::Matmul1 => 0,
            MatmulFunctions::Matmul1End => 1,
            MatmulFunctions::Matmul7 => 2,
            MatmulFunctions::Matmul5 => 3,
            MatmulFunctions::Matmul5Tile32x32 => 4,
            MatmulFunctions::Matmul5Tile64x64 => 5,
            MatmulFunctions::Matmul5Tile128x128 => 6,
            MatmulFunctions::Matmul5Tile64x64Vec8x8 => 7,
            MatmulFunctions::Matmul5Tile16x64 => 8,
        }
    }

    /// The number of the entry point within its family.
    pub fn get_code(&self) -> (r: u8)
        ensures
            r == self.code(),
    {
        match self {
            MatmulFunctions::Matmul1 => 0,
            MatmulFunctions::Matmul1End => 1,
            MatmulFunctions::Matmul7 => 2,
            MatmulFunctions::Matmul5 => 3,
            MatmulFunctions::Matmul5Tile32x32 => 4,
            MatmulFunctions::Matmul5Tile64x64 => 5,
            MatmulFunctions::Matmul5Tile128x128 => 6,
            MatmulFunctions::Matmul5Tile64x64Vec8x8 => 7,
            MatmulFunctions::Matmul5Tile16x64 => 8,
        }
    }
}

impl RmsNormFunctions {
    /// The number of the entry point within its family.
    pub open spec fn code(self) -> u8 {
        match self {
            RmsNormFunctions::RmsNorm => 0,
        }
    }

    /// The number of the entry point within its family.
    pub fn get_code(&self) -> (r: u8)
        ensures
            r == self.code(),
    {
        match self {
            RmsNormFunctions::RmsNorm => 0,
        }
    }
}

impl SoftmaxFunctions {
    /// The number of the entry point within its family.
    pub open spec fn code(self) -> u8 {
        match self {
            SoftmaxFunctions::Softmax => 0,
        }
    }

    /// The number of the entry point within its family.
    pub fn get_code(&self) -> (r: u8)
        ensures
            r == self.code(),
    {
        match self {
            SoftmaxFunctions::Softmax => 0,
        }
    }
}

impl WhereCondFunctions {
    /// The number of the entry point within its family.
    pub open spec fn code(self) -> u8 {
        match self {
            WhereCondFunctions::WhereCondU32 => 0,
        }
    }

    /// The number of the entry point within its family.
    pub fn get_code(&self) -> (r: u8)
        ensures
            r == self.code(),
    {
        match self {
            WhereCondFunctions::WhereCondU32 => 0,
        }
    }
}

impl CopyFunctions {
    /// The number of the entry point within its family.
    pub open spec fn code(self) -> u8 {
        match self {
            CopyFunctions::Copy => 0,
            CopyFunctions::Copy2d => 1,
            CopyFunctions::Copy3d => 2,
            CopyFunctions::Copy3dPadded => 3,
            CopyFunctions::CopyStrided => 4,
        }
    }

    /// The number of the entry point within its family.
    pub fn get_code(&self) -> (r: u8)
        ensures
            r == self.code(),
    {
        match self {
            CopyFunctions::Copy => 0,
            CopyFunctions::Copy2d => 1,
            CopyFunctions::Copy3d => 2,
            CopyFunctions::Copy3dPadded => 3,
            CopyFunctions::CopyStrided => 4,
        }
    }
}

impl Pool2dFunctions {
    /// The number of the entry point within its family.
    pub open spec fn code(self) -> u8 {
        match self {
            Pool2dFunctions::AvgPool2d => 0,
            Pool2dFunctions::MaxPool2d => 1,
        }
    }

    /// The number of the entry point within its family.
    pub fn get_code(&self) -> (r: u8)
        ensures
            r == self.code(),
    {
        match self {
            Pool2dFunctions::AvgPool2d => 0,
            Pool2dFunctions::MaxPool2d => 1,
        }
    }
}

impl Pipelines {
    /// The kernel as three numbers: that of its family, that of its element type, and
    /// that of its entry point within the family.
    pub open spec fn codes(self) -> (u8, u8, u8) {
        match self {
            Pipelines::Upsample(typ, f) => (0, typ.code(), f.code()),
            Pipelines::Cmp(typ, f) => (1, typ.code(), f.code()),
            Pipelines::Convert(typ, f) => (2, typ.code(), f.code()),
            Pipelines::Reduce(typ, f) => (3, typ.code(), f.code()),
            Pipelines::IndexSelect(typ, f) => (4, typ.code(), f.code()),
            Pipelines::Conv1d(typ, f) => (5, typ.code(), f.code()),
            Pipelines::Gather(typ, f) => (6, typ.code(), f.code()),
            Pipelines::Unary(typ, f) => (7, typ.code(), f.code()),
            Pipelines::Binary(typ, f) => (8, typ.code(), f.code()),
            Pipelines::Conv2d(typ, f) => (9, typ.code(), f.code()),
            Pipelines::Matmul(typ, f) => (10, typ.code(), f.code()),
            Pipelines::RmsNorm(typ, f) => (11, typ.code(), f.code()),
            Pipelines::Softmax(typ, f) => (12, typ.code(), f.code()),
            Pipelines::WhereCond(typ, f) => (13, typ.code(), f.code()),
            Pipelines::Copy(typ, f) => (14, typ.code(), f.code()),
            Pipelines::Pool2d(typ, f) => (15, typ.code(), f.code()),
        }
    }

    /// The kernel as three numbers: that of its family, that of its element type, and
    /// that of its entry point within the family.
    pub fn get_codes(&self) -> (r: (u8, u8, u8))
        ensures
            r == self.codes(),
    {
        match self {
            Pipelines::Upsample(typ, f) => (0, typ.get_code(), f.get_code()),
            Pipelines::Cmp(typ, f) => (1, typ.get_code(), f.get_code()),
            Pipelines::Convert(typ, f) => (2, typ.get_code(), f.get_code()),
            Pipelines::Reduce(typ, f) => (3, typ.get_code(), f.get_code()),
            Pipelines::IndexSelect(typ, f) => (4, typ.get_code(), f.get_code()),
            Pipelines::Conv1d(typ, f) => (5, typ.get_code(), f.get_code()),
            Pipelines::Gather(typ, f) => (6, typ.get_code(), f.get_code()),
            Pipelines::Unary(typ, f) => (7, typ.get_code(), f.get_code()),
            Pipelines::Binary(typ, f) => (8, typ.get_code(), f.get_code()),
            Pipelines::Conv2d(typ, f) => (9, typ.get_code(), f.get_code()),
            Pipelines::Matmul(typ, f) => (10, typ.get_code(), f.get_code()),
            Pipelines::RmsNorm(typ, f) => (11, typ.get_code(), f.get_code()),
            Pipelines::Softmax(typ, f) => (12, typ.get_code(), f.get_code()),
            Pipelines::WhereCond(typ, f) => (13, typ.get_code(), f.get_code()),
            Pipelines::Copy(typ, f) => (14, typ.get_code(), f.get_code()),
            Pipelines::Pool2d(typ, f) => (15, typ.get_code(), f.get_code()),
        }
    }
}

} // verus!
