[package]
name = "schnorr_core"
version = "0.1.0"
edition = "2021"
publish = false

[dependencies]
blake2b_simd = "1"
rand_core = "0.6"
