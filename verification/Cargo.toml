[package]
name = "fls"
version = "0.1.0"
edition = "2021"
publish = false

[dependencies]
uuid = { version = "1", features = ["v4"] }
serde_json = "1"
serde = { version = "1", features = ["derive"] }
toml = "*"
clap = { version = "4", features = ["derive"] }
atomic-write-file = "*"
chrono = "0.4"
jsonwebtoken = "9"
tokio = { version = "1", features = ["process", "fs", "rt", "macros"] }
