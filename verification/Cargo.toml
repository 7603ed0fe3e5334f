[package]
name = "wgpu_bindings"
version = "0.1.0"
edition = "2021"
publish = false

[dependencies]
ash = { version = "=0.38.0", default-features = false, features = ["std"] }
cssparser = "=0.38.0"
log = "=0.4.34"
wgpu-types = "=30.0.1"

[dev-dependencies]
bincode = "=1.3.3"
