[package]
name = "larql"
version = "0.1.0"
edition = "2021"
publish = false

[dependencies]
cudarc = { version = "0.19", default-features = false, features = ["std", "driver", "cublas", "nvrtc", "f16", "dynamic-loading", "cuda-12080"] }
half = "2"
memmap2 = "0.9"
ndarray = "0.16"
rand = "0.8"
rayon = "1"
serde = { version = "1", features = ["derive"] }
serde_json = "1"
thiserror = "2"
tokenizers = { version = "*", default-features = false, features = ["fancy-regex"] }
