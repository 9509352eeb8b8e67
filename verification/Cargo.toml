[package]
name = "opencode_desktop"
version = "0.1.0"
edition = "2021"
publish = false

[dependencies]
uuid = { version = "*", features = ["v4"] }
serde = { version = "*", features = ["derive"] }
serde_json = "*"
tokio = { version = "*", features = ["rt-multi-thread", "macros", "process", "sync", "time", "io-util", "net"] }
reqwest = { version = "*", default-features = false }
