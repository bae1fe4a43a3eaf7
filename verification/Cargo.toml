[package]
name = "exp_rs"
version = "0.1.0"
edition = "2021"
publish = false

[dependencies]
heapless = "0.8"
bumpalo = "3"
libm = "0.2"
