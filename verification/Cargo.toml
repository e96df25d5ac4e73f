[package]
name = "gpu_dispatch"
version = "0.1.0"
edition = "2021"
publish = false

[dependencies]
bytemuck = { version = "1", features = ["extern_crate_alloc"] }
flume = "0.11"
log = "0.4"
pollster = "0.3"
rand = "0.8"
wgpu = "22"
