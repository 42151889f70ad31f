[package]
name = "cortex"
version = "0.1.0"
edition = "2021"
publish = false

[dependencies]
lite-json = "*"
log = "*"
parity-scale-codec = { version = "*", features = ["derive"] }
scale-info = { version = "*", features = ["derive"] }
frame-support = "*"
frame-system = "*"
sp-runtime = "*"
sp-io = "*"
sp-core = "*"
sp-std = "*"
