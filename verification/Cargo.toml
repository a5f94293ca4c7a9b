[package]
name = "server_keeper"
version = "0.1.0"
edition = "2021"
publish = false

[dependencies]
anyhow = "1"
serde = { version = "1", features = ["derive"] }
serde_json = "1"
serenity = "0.12"
sysinfo = "*"
tokio = { version = "1", features = ["rt-multi-thread", "macros", "time"] }
