[package]
name = "cyat_renderer"
version = "0.1.0"
edition = "2021"
publish = false

[dependencies]
bytemuck = { version = "=1.25.2", features = ["derive"] }
cyat = "=1.0.3"
ordered-float = "=5.5.0"
wgpu = { version = "=25.0.2", default-features = false, features = ["wgsl"] }
wgpu_dyn_buffer = "=3.0.0"
