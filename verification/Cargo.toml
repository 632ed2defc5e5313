[package]
name = "entity-gym-rs"
version = "0.1.0"
edition = "2021"
publish = false

[dependencies]
rand = { version = "0.8", features = ["small_rng"] }
crossbeam = "0.8"
crossbeam-channel = "0.5"
atomicbox = "*"
rustc-hash = "1.1"
arrayvec = "0.7"
ndarray = "0.15"
ragged-buffer = "*"
rogue-net = "*"
syn = { version = "1", features = ["full"] }
quote = "1"
proc-macro2 = "1"
proc-macro-error = "1"
