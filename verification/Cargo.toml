[package]
name = "pydart"
version = "0.1.0"
edition = "2021"
publish = false

[dependencies]
arrow = { version = "=59.3.2", default-features = false }
parquet = { version = "=59.3.2", default-features = false, features = ["arrow", "snap", "zstd", "flate2-rust_backend"] }
pyo3 = "=0.30.1"
pyo3-arrow = "=0.20.0"
numpy = "=0.30.0"
thiserror = "=2.0.21"
