[package]
name = "raii-change-tracker"
version = "0.1.0"
edition = "2021"
publish = false

[dependencies]
futures = "0.1"

[dev-dependencies]
tokio-core = "0.1"
