//! The registry of compute programs: which program file backs which shader key.
use vstd::prelude::*;
use crate::dtype::DType;
use crate::dtype::WebGpuError;

verus! {

/// All known shader files, each for one tensor element type.
#[derive(Clone, Copy, Debug, PartialEq, Eq, Hash, Structural)]
pub enum Shader {
    Binary(DType),
    Cmp(DType),
    Conv2D(DType),
    Convert(DType),
    Copy(DType),
    IndexSelect(DType),
    Matmul(DType),
    Reduce(DType),
    RmsNorm(DType),
    Softmax(DType),
    Unary(DType),
    WhereCond(DType),
    Pool2d(DType),
    Upsample(DType),
    Gather(DType),
}

impl Shader {
    /// The element type the program is built for.
    pub open spec fn dtype(self) -> DType {
        match self {
            Shader::Binary(d) => d,
            Shader::Cmp(d) => d,
            Shader::Conv2D(d) => d,
            Shader::Convert(d) => d,
            Shader::Copy(d) => d,
            Shader::IndexSelect(d) => d,
            Shader::Matmul(d) => d,
            Shader::Reduce(d) => d,
            Shader::RmsNorm(d) => d,
            Shader::Softmax(d) => d,
            Shader::Unary(d) => d,
            Shader::WhereCond(d) => d,
            Shader::Pool2d(d) => d,
            Shader::Upsample(d) => d,
            Shader::Gather(d) => d,
        }
    }

    /// Whether a program is registered under this key: every family has one for `F32` and
    /// for `U32`, and the conversions have one for `U8` as well.
    pub open spec fn is_registered(self) -> bool {
        self.dtype() == DType::F32 || self.dtype() == DType::U32 || self == Shader::Convert(
            DType::U8,
        )
    }

    /// The directory of the family's program files.
    pub open spec fn directory(self) -> Seq<char> {
        match self {
            Shader::Binary(_) => "binary"@,
            Shader::Cmp(_) => "cmp"@,
            Shader::Conv2D(_) => "conv2d"@,
            Shader::Convert(_) => "convert"@,
            Shader::Copy(_) => "copy"@,
            Shader::IndexSelect(_) => "index_select"@,
            Shader::Matmul(_) => "matmul"@,
            Shader::Reduce(_) => "reduce"@,
            Shader::RmsNorm(_) => "rms_norm"@,
            Shader::Softmax(_) => "softmax"@,
            Shader::Unary(_) => "unary"@,
            Shader::WhereCond(_) => "where_cond"@,
            Shader::Pool2d(_) => "pool2d"@,
            Shader::Upsample(_) => "upsample"@,
            Shader::Gather(_) => "gather"@,
        }
    }
}

impl Shader {
    /// The program file registered under this key, as a path below the kernel directory.
    /// It is meaningful only for a registered key.
    pub open spec fn program_path(self) -> Seq<char> {
        match self {
            Shader::Binary(DType::F32) => "binary/generated/shader.pwgsl_generated_f32.wgsl"@,
            Shader::Binary(DType::U32) => "binary/generated/shader.pwgsl_generated_u32.wgsl"@,
            Shader::Cmp(DType::F32) => "cmp/generated/shader.pwgsl_generated_f32.wgsl"@,
            Shader::Cmp(DType::U32) => "cmp/generated/shader.pwgsl_generated_u32.wgsl"@,
            Shader::Conv2D(DType::F32) => "conv2d/generated/shader.pwgsl_generated_f32.wgsl"@,
            Shader::Conv2D(DType::U32) => "conv2d/generated/shader.pwgsl_generated_u32.wgsl"@,
            Shader::Convert(DType::F32) => "convert/generated/shader.pwgsl_generated_f32.wgsl"@,
            Shader::Convert(DType::U32) => "convert/generated/shader.pwgsl_generated_u32.wgsl"@,
            Shader::Convert(DType::U8) => "convert/generated/shader.pwgsl_generated_u8.wgsl"@,
            Shader::Copy(DType::F32) => "copy/generated/shader.pwgsl_generated_f32.wgsl"@,
            Shader::Copy(DType::U32) => "copy/generated/shader.pwgsl_generated_u32.wgsl"@,
            Shader::IndexSelect(DType::F32) => "index_select/generated/shader.pwgsl_generated_f32.wgsl"@,
            Shader::IndexSelect(DType::U32) => "index_select/generated/shader.pwgsl_generated_u32.wgsl"@,
            Shader::Matmul(DType::F32) => "matmul/generated/shader.pwgsl_generated_f32.wgsl"@,
            Shader::Matmul(DType::U32) => "matmul/generated/shader.pwgsl_generated_u32.wgsl"@,
            Shader::Reduce(DType::F32) => "reduce/generated/shader.pwgsl_generated_f32.wgsl"@,
            Shader::Reduce(DType::U32) => "reduce/generated/shader.pwgsl_generated_u32.wgsl"@,
            Shader::RmsNorm(DType::F32) => "rms_norm/generated/shader.pwgsl_generated_f32.wgsl"@,
            Shader::RmsNorm(DType::U32) => "rms_norm/generated/shader.pwgsl_generated_u32.wgsl"@,
            Shader::Softmax(DType::F32) => "softmax/generated/shader.pwgsl_generated_f32.wgsl"@,
            Shader::Softmax(DType::U32) => "softmax/generated/shader.pwgsl_generated_u32.wgsl"@,
            Shader::Unary(DType::F32) => "unary/generated/shader.pwgsl_generated_f32.wgsl"@,
            Shader::Unary(DType::U32) => "unary/generated/shader.pwgsl_generated_u32.wgsl"@,
            Shader::WhereCond(DType::F32) => "where_cond/generated/shader.pwgsl_generated_f32.wgsl"@,
            Shader::WhereCond(DType::U32) => "where_cond/generated/shader.pwgsl_generated_u32.wgsl"@,
            Shader::Pool2d(DType::F32) => "pool2d/generated/shader.pwgsl_generated_f32.wgsl"@,
            Shader::Pool2d(DType::U32) => "pool2d/generated/shader.pwgsl_generated_u32.wgsl"@,
            Shader::Upsample(DType::F32) => "upsample/generated/shader.pwgsl_generated_f32.wgsl"@,
            Shader::Upsample(DType::U32) => "upsample/generated/shader.pwgsl_generated_u32.wgsl"@,
            Shader::Gather(DType::F32) => "gather/generated/shader.pwgsl_generated_f32.wgsl"@,
            Shader::Gather(DType::U32) => "gather/generated/shader.pwgsl_generated_u32.wgsl"@,
            _ => Seq::<char>::empty(),
        }
    }
}

/// Looks a shader key up in the registry. A registered key gives the path of its program
/// file below the kernel directory; any other key is rejected.
pub fn load_shader(shader: Shader) -> (r: Result<&'static str, WebGpuError>)
    ensures
        shader.is_registered() ==> r is Ok && r->Ok_0@ == shader.program_path(),
        !shader.is_registered() ==> r == Err::<&'static str, WebGpuError>(
            WebGpuError::ShaderNotFound(shader),
        ),
{
    match shader {
        Shader::Binary(DType::F32) => Ok("binary/generated/shader.pwgsl_generated_f32.wgsl"),
        Shader::Binary(DType::U32) => Ok("binary/generated/shader.pwgsl_generated_u32.wgsl"),
        Shader::Cmp(DType::F32) => Ok("cmp/generated/shader.pwgsl_generated_f32.wgsl"),
        Shader::Cmp(DType::U32) => Ok("cmp/generated/shader.pwgsl_generated_u32.wgsl"),
        Shader::Conv2D(DType::F32) => Ok("conv2d/generated/shader.pwgsl_generated_f32.wgsl"),
        Shader::Conv2D(DType::U32) => Ok("conv2d/generated/shader.pwgsl_generated_u32.wgsl"),
        Shader::Convert(DType::F32) => Ok("convert/generated/shader.pwgsl_generated_f32.wgsl"),
        Shader::Convert(DType::U32) => Ok("convert/generated/shader.pwgsl_generated_u32.wgsl"),
        Shader::Convert(DType::U8) => Ok("convert/generated/shader.pwgsl_generated_u8.wgsl"),
        Shader::Copy(DType::F32) => Ok("copy/generated/shader.pwgsl_generated_f32.wgsl"),
        Shader::Copy(DType::U32) => Ok("copy/generated/shader.pwgsl_generated_u32.wgsl"),
        Shader::IndexSelect(DType::F32) => Ok("index_select/generated/shader.pwgsl_generated_f32.wgsl"),
        Shader::IndexSelect(DType::U32) => Ok("index_select/generated/shader.pwgsl_generated_u32.wgsl"),
        Shader::Matmul(DType::F32) => Ok("matmul/generated/shader.pwgsl_generated_f32.wgsl"),
        Shader::Matmul(DType::U32) => Ok("matmul/generated/shader.pwgsl_generated_u32.wgsl"),
        Shader::Reduce(DType::F32) => Ok("reduce/generated/shader.pwgsl_generated_f32.wgsl"),
        Shader::Reduce(DType::U32) => Ok("reduce/generated/shader.pwgsl_generated_u32.wgsl"),
        Shader::RmsNorm(DType::F32) => Ok("rms_norm/generated/shader.pwgsl_generated_f32.wgsl"),
        Shader::RmsNorm(DType::U32) => Ok("rms_norm/generated/shader.pwgsl_generated_u32.wgsl"),
        Shader::Softmax(DType::F32) => Ok("softmax/generated/shader.pwgsl_generated_f32.wgsl"),
        Shader::Softmax(DType::U32) => Ok("softmax/generated/shader.pwgsl_generated_u32.wgsl"),
        Shader::Unary(DType::F32) => Ok("unary/generated/shader.pwgsl_generated_f32.wgsl"),
        Shader::Unary(DType::U32) => Ok("unary/generated/shader.pwgsl_generated_u32.wgsl"),
        Shader::WhereCond(DType::F32) => Ok("where_cond/generated/shader.pwgsl_generated_f32.wgsl"),
        Shader::WhereCond(DType::U32) => Ok("where_cond/generated/shader.pwgsl_generated_u32.wgsl"),
        Shader::Pool2d(DType::F32) => Ok("pool2d/generated/shader.pwgsl_generated_f32.wgsl"),
        Shader::Pool2d(DType::U32) => Ok("pool2d/generated/shader.pwgsl_generated_u32.wgsl"),
        Shader::Upsample(DType::F32) => Ok("upsample/generated/shader.pwgsl_generated_f32.wgsl"),
        Shader::Upsample(DType::U32) => Ok("upsample/generated/shader.pwgsl_generated_u32.wgsl"),
        Shader::Gather(DType::F32) => Ok("gather/generated/shader.pwgsl_generated_f32.wgsl"),
        Shader::Gather(DType::U32) => Ok("gather/generated/shader.pwgsl_generated_u32.wgsl"),
        _ => Err(WebGpuError::ShaderNotFound(shader)),
    }
}

} // verus!
