[package]
name = "embedder"
version = "0.1.0"
edition = "2021"
publish = false

[dependencies]
tokenizers = "*"
ort = { version = "=2.0.0-rc.13", default-features = false, features = ["load-dynamic", "ndarray"] }
clap = { version = "*", features = ["derive"] }
once_cell = "*"
anyhow = "*"
