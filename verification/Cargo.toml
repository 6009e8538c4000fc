[package]
name = "review"
version = "0.1.0"
edition = "2021"
publish = false

[dependencies]
anyhow = "1"
bson = "*"
clap = { version = "4", features = ["derive"] }
futures = "0.3"
lz4_flex = "0.11"
procfs = "*"
rand = "0.9"
serde = { version = "1", features = ["derive"] }
serde_json = "1"
ssh-encoding = "0.2"
ssh-key = { version = "0.6", features = ["std", "crypto"] }
tokio = { version = "1", features = ["full"] }
tokio-util = { version = "0.7", features = ["codec"] }
tracing = "0.1"
tracing-subscriber = "0.3"
