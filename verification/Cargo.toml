[package]
name = "hll_core"
version = "0.1.0"
edition = "2021"
publish = false

[dependencies]
ndarray = "0.16"
clap = { version = "4", features = ["derive"] }
thiserror = "2"
tracing = "0.1"
tracing-subscriber = "0.3"
anyhow = "1"
