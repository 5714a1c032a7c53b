[package]
name = "df_stream"
version = "0.1.0"
edition = "2021"
publish = false

[dependencies]
anyhow = "*"
ndarray = "*"
rust-ini = "*"
tract-onnx = "*"
tract-pulse = "*"
