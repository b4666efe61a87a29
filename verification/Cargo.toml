[package]
name = "explorer"
version = "0.1.0"
edition = "2021"
publish = false

[dependencies]
polars = { version = "=0.14.8", features = ["strings", "dtype-u64"] }
rand = "=0.8.8"
rand_pcg = "=0.3.1"
rustler = "=0.39.0"
