[package]
name = "voxel_gi"
version = "0.1.0"
edition = "2021"
publish = false

[dependencies]
wgpu = "0.16"
gltf = "1"
cgmath = "0.18"
bytemuck = "1"
futures = "0.3"
