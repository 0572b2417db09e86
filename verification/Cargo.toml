[package]
name = "valkyrie"
version = "0.1.0"
edition = "2021"
publish = false

[dependencies]
affinity = "*"
anyhow = "*"
bytes = "*"
clap = { version = "*", features = ["derive"] }
futures = "*"
socket2 = "*"
tokio = { version = "*", features = ["full"] }
tracing = "*"
tracing-subscriber = { version = "*", features = ["env-filter"] }
