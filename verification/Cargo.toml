[package]
name = "process_key_sender"
version = "0.1.0"
edition = "2021"
publish = false

[dependencies]
sysinfo = "*"
tokio = { version = "*", features = ["rt-multi-thread", "macros", "sync", "time", "signal"] }
serde = { version = "*", features = ["derive"] }
serde_json = "*"
thiserror = "*"
