[package]
name = "vibeboy"
version = "0.1.0"
edition = "2021"
publish = false

[dependencies]
clap = { version = "*", features = ["derive"] }
env_logger = "*"
gilrs = "*"
image = { version = "*", default-features = false, features = ["png"] }
log = "*"
serde = { version = "*", features = ["derive"] }
svg = "*"
wgpu = "*"
