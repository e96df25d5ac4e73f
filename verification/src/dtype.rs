//! Element types: those a tensor may have, and those the kernels are built for.
use vstd::prelude::*;

verus! {

/// The element type of a tensor.
#[derive(Clone, Copy, Debug, PartialEq, Eq, Hash, Structural)]
pub enum DType {
    U8,
    U32,
    I64,
    BF16,
    F16,
    F32,
    F64,
}

/// The element types for which compute kernels exist.
#[derive(Clone, Copy, Debug, PartialEq, Eq, Hash, Structural)]
pub enum KernelDType {
    F32,
    U32,
    U8,
}

/// The failures a caller can recover from.
#[derive(Clone, Copy, Debug, PartialEq, Eq, Hash, Structural)]
pub enum WebGpuError {
    /// An operation was asked for on an element type it has no kernel for.
    UnsupportedDType(DType),
    /// No compute program is registered under this shader key.
    ShaderNotFound(crate::shader::Shader),
    /// A tensor has another number of dimensions than the operation works on.
    UnexpectedNumberOfDims { expected: usize, got: usize },
}

impl DType {
    /// The kernel element type that stands for this tensor element type, if there is one.
    pub open spec fn kernel_dtype(self) -> Option<KernelDType> {
        match self {
            DType::F32 => Some(KernelDType::F32),
            DType::U32 => Some(KernelDType::U32),
            DType::U8 => Some(KernelDType::U8),
            _ => None,
        }
    }
}

impl KernelDType {
    /// The tensor element type this kernel element type stands for.
    pub open spec fn spec_tensor_dtype(self) -> DType {
        match self {
            KernelDType::F32 => DType::F32,
            KernelDType::U32 => DType::U32,
            KernelDType::U8 => DType::U8,
        }
    }

    /// The number of the element type.
    pub open spec fn code(self) -> u8 {
        match self {
            KernelDType::F32 => 0,
            KernelDType::U32 => 1,
            KernelDType::U8 => 2,
        }
    }

    /// The number of the element type.
    pub fn get_code(&self) -> (r: u8)
        ensures
            r == self.code(),
    {
        match self {
            KernelDType::F32 => 0,
            KernelDType::U32 => 1,
            KernelDType::U8 => 2,
        }
    }

    /// The tensor element type this kernel element type stands for.
    pub fn tensor_dtype(&self) -> (r: DType)
        ensures
            r == self.spec_tensor_dtype(),
            r.kernel_dtype() == Some(*self),
    {
        match self {
            KernelDType::F32 => DType::F32,
            KernelDType::U32 => DType::U32,
            KernelDType::U8 => DType::U8,
        }
    }
}

/// Chooses the kernel element type for a tensor element type; the types without kernels
/// are rejected.
pub fn get_dtype(dtype: DType) -> (r: Result<KernelDType, WebGpuError>)
    ensures
        match dtype.kernel_dtype() {
            Some(k) => r == Ok::<KernelDType, WebGpuError>(k),
            None => r == Err::<KernelDType, WebGpuError>(WebGpuError::UnsupportedDType(dtype)),
        },
{
    match dtype {
        DType::F32 => Ok(KernelDType::F32),
        DType::U32 => Ok(KernelDType::U32),
        DType::U8 => Ok(KernelDType::U8),
        _ => Err(WebGpuError::UnsupportedDType(dtype)),
    }
}

} // verus!
