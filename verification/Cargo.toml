[package]
name = "wgsl_ping_pong_pipeline"
version = "0.1.0"
edition = "2021"
publish = false

[dependencies]
anyhow = "=1.0.104"
bytemuck = "=1.25.2"
env_logger = "=0.11.11"
log = "=0.4.35"
pollster = { version = "=0.4.0", features = ["macro"] }
wgpu = "=29.0.4"

[dev-dependencies]
wgpu = { version = "=29.0.4", features = ["noop"] }
