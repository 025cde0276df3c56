[package]
name = "meshalert"
version = "0.1.0"
edition = "2021"
publish = false

[dependencies]
serde_json = "*"
chrono = "*"
serde = { version = "*", features = ["derive"] }
reqwest = { version = "*", default-features = false }
tokio = { version = "*", features = ["rt", "time", "macros"] }
clap = { version = "*", features = ["derive"] }
log = "*"
simple_logger = "*"
anyhow = "*"
