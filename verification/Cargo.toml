[package]
name = "engine_gpu"
version = "0.1.0"
edition = "2021"
publish = false

[dependencies]
bytemuck = { version = "=1.25.2", features = ["extern_crate_alloc"] }
futures = "=0.3.34"
log = "=0.4.35"
primitive-types = "=0.13.1"
wgpu = "=27.0.1"
