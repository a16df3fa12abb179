[package]
name = "locker"
version = "0.1.0"
edition = "2021"
publish = false

[dependencies]
hex = "=0.4.3"
near-sdk = { version = "=4.1.1", default-features = false }
ink_env = "=3.4.0"
ink_primitives = "=3.4.0"
ink_prelude = "=3.4.0"
parity-scale-codec = "=3.7.5"
