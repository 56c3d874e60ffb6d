[package]
name = "keryx_rules"
version = "0.1.0"
edition = "2021"
publish = false

[dependencies]
blake2b_simd = "=1.0.5"
chrono = "=0.4.45"
hex = "=0.4.3"
rand = "0.8"
rocksdb = "=0.24.0"
