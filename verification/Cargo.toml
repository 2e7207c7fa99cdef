[package]
name = "drysua"
version = "0.1.0"
edition = "2021"
publish = false

[dependencies]
clap = { version = "4", features = ["derive"] }
safetensors = "0.6"
sha2 = "0.10"
