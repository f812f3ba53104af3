[package]
name = "mp4converter"
version = "0.1.0"
edition = "2021"
publish = false

[dependencies]
clap = { version = "*", features = ["derive"] }
colored = "*"
humansize = "*"
indicatif = "*"
serde = { version = "*", features = ["derive"] }
serde_json = "*"
thiserror = "*"
tokio = { version = "*", features = ["macros", "rt-multi-thread", "fs", "time"] }
tracing = "*"
tracing-subscriber = { version = "*", features = ["env-filter"] }
