[package]
name = "stone_index"
version = "0.1.0"
edition = "2021"
publish = false

[dependencies]
frame-support = { version = "=49.0.0", default-features = false }
frame-system = { version = "=49.0.0", default-features = false }
pallet-assets = { version = "=54.0.0", default-features = false }
parity-scale-codec = { version = "=3.7.5", default-features = false }
sp-runtime = { version = "=49.0.0", default-features = false }
