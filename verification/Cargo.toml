[package]
name = "rev_lines"
version = "0.1.0"
edition = "2021"
publish = false

[dependencies]
async-stream = "0.3"
futures = "0.3"
thiserror = "1"
tokio = { version = "1", features = ["fs", "io-util"] }
