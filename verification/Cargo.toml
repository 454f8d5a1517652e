[package]
name = "deip_asset_system"
version = "0.1.0"
edition = "2021"
publish = false

[dependencies]
bitmask-enum = "*"
frame-support = "*"
parity-scale-codec = { version = "*", features = ["derive"] }
scale-info = { version = "*", features = ["derive"] }
sp-core = "*"
sp-runtime = "*"
