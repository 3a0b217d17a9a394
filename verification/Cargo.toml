[package]
name = "bench_kernels"
version = "0.1.0"
edition = "2021"
publish = false

[dependencies]
aes-gcm = "0.10"
flate2 = "1"
sha2 = "0.10"
wasm-bindgen = "0.2"
