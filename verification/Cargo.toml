[package]
name = "yamengine"
version = "0.1.0"
edition = "2021"
publish = false

[dependencies]
bytemuck = "1"
colored = "2"
futures = "0.3"
legion = "0.3"
nalgebra = "0.24"
shaderc = "0.7"
wgpu = "0.7"
winit = "0.24"
