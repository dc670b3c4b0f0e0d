[package]
name = "mini_app_mcp"
version = "0.1.0"
edition = "2021"
publish = false

[dependencies]
anyhow = "1"
arc-swap = "1"
dirs = "*"
dotenvy = "0.15"
rmcp = { version = "1.5", features = ["server", "macros", "transport-io"] }
rusqlite = { version = "0.32", features = ["bundled", "backup"] }
schemars = "1"
serde = { version = "1", features = ["derive"] }
serde_json = "1"
serde_yaml_bw = "*"
tokio = { version = "1", features = ["rt-multi-thread", "macros", "io-std", "fs", "time"] }
tracing = "0.1"
uuid = { version = "1", features = ["v4"] }
