use gpu_dispatch::dtype::get_dtype;
use gpu_dispatch::dtype::DType;
use gpu_dispatch::dtype::KernelDType;
use gpu_dispatch::dtype::WebGpuError;
use gpu_dispatch::kernels::Constants;
use gpu_dispatch::kernels::MatmulFunctions;
use gpu_dispatch::kernels::Pipelines;
use gpu_dispatch::kernels::Shaders;
use gpu_dispatch::kernels::UnaryFunctions;
use gpu_dispatch::queue::OpIsInplaceable;
use gpu_dispatch::shader::load_shader;
use gpu_dispatch::shader::Shader;

#[test]
fn load_shader_finds_registered_programs() {
    assert_eq!(
        load_shader(Shader::Binary(DType::F32)),
        Ok("binary/generated/shader.pwgsl_generated_f32.wgsl")
    );
    assert_eq!(
        load_shader(Shader::Gather(DType::U32)),
        Ok("gather/generated/shader.pwgsl_generated_u32.wgsl")
    );
    assert_eq!(
        load_shader(Shader::Convert(DType::U8)),
        Ok("convert/generated/shader.pwgsl_generated_u8.wgsl")
    );
    assert_eq!(
        load_shader(Shader::Conv2D(DType::F32)),
        Ok("conv2d/generated/shader.pwgsl_generated_f32.wgsl")
    );
}

#[test]
fn load_shader_rejects_unregistered_programs() {
    assert_eq!(
        load_shader(Shader::Unary(DType::F64)),
        Err(WebGpuError::ShaderNotFound(Shader::Unary(DType::F64)))
    );
    assert_eq!(
        load_shader(Shader::Binary(DType::U8)),
        Err(WebGpuError::ShaderNotFound(Shader::Binary(DType::U8)))
    );
    assert_eq!(
        load_shader(Shader::Matmul(DType::BF16)),
        Err(WebGpuError::ShaderNotFound(Shader::Matmul(DType::BF16)))
    );
}

#[test]
fn shaders_get_shader_is_the_module_itself() {
    let module = Shaders::Softmax(KernelDType::U32);
    assert_eq!(module.get_shader(), module);
    assert_eq!(Shaders::Conv1d(KernelDType::F32).get_shader(), Shaders::Conv1d(KernelDType::F32));
}

#[test]
fn pipelines_name_their_shader_and_entry_point() {
    let pipeline = Pipelines::Matmul(KernelDType::F32, MatmulFunctions::Matmul1End);
    assert_eq!(pipeline.get_shader(), Shaders::Matmul(KernelDType::F32));
    assert_eq!(pipeline.get_entry_point(), "matmul1_end");
    let unary = Pipelines::Unary(KernelDType::U32, UnaryFunctions::UnaryInplaceContiguous);
    assert_eq!(unary.get_entry_point(), "unary_inplace_contiguous");
    assert_eq!(unary.load_shader(), Ok("unary/generated/shader.pwgsl_generated_u32.wgsl"));
}

#[test]
fn shaders_load_through_the_registry() {
    assert_eq!(
        Shaders::Conv1d(KernelDType::F32).load_shader(),
        Ok("conv2d/generated/shader.pwgsl_generated_f32.wgsl")
    );
    assert_eq!(Shaders::Conv1d(KernelDType::F32).get_shader_key(), Shader::Conv2D(DType::F32));
    assert_eq!(
        Shaders::Unary(KernelDType::U8).load_shader(),
        Err(WebGpuError::ShaderNotFound(Shader::Unary(DType::U8)))
    );
    assert_eq!(
        Shaders::Convert(KernelDType::U8).load_shader(),
        Ok("convert/generated/shader.pwgsl_generated_u8.wgsl")
    );
}

#[test]
fn constants_have_their_names() {
    assert_eq!(Constants::ConstIsStartoffsetZero2.get_entry_point(), "CONST_IS_STARTOFFSET_ZERO2");
    assert_eq!(Constants::Constv5.get_entry_point(), "CONSTV_5");
    assert_eq!(Constants::ConstDims1.get_entry_point(), "CONST_DIMS1");
    assert_eq!(Constants::ConstIsContiguous3.get_entry_point(), "CONST_IS_CONTIGUOUS3");
    assert_eq!(Constants::get_const(0), Constants::Constv0);
    assert_eq!(Constants::get_const(4), Constants::Constv4);
    assert_eq!(Constants::get_const(9), Constants::Constv9);
}

#[test]
fn get_dtype_accepts_the_kernel_types_only() {
    assert_eq!(get_dtype(DType::F32), Ok(KernelDType::F32));
    assert_eq!(get_dtype(DType::U32), Ok(KernelDType::U32));
    assert_eq!(get_dtype(DType::U8), Ok(KernelDType::U8));
    assert_eq!(get_dtype(DType::F64), Err(WebGpuError::UnsupportedDType(DType::F64)));
    assert_eq!(get_dtype(DType::I64), Err(WebGpuError::UnsupportedDType(DType::I64)));
    assert_eq!(KernelDType::U8.tensor_dtype(), DType::U8);
}

#[test]
fn op_is_inplaceable_starts_with_nothing_inplaceable() {
    let flags = OpIsInplaceable::new();
    assert!(!flags.input1_inplaceable);
    assert!(!flags.input2_inplaceable);
}
