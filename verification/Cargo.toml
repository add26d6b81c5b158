[package]
name = "intern_pool"
version = "0.1.0"
edition = "2021"
publish = false

[dependencies]
fnv = "1.0"
rustc-serialize = "0.3"
