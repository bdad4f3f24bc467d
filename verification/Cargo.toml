[package]
name = "xabe_cuda"
version = "0.1.0"
edition = "2021"
publish = false

[dependencies]
cudarc = { version = "*", default-features = false, features = ["std", "driver", "nvrtc", "fallback-dynamic-loading", "cuda-12080"] }
half = "2"
thiserror = "2"
tracing = "0.1"
tracing-subscriber = { version = "0.3", features = ["env-filter"] }
