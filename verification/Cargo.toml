[package]
name = "mcp_hack"
version = "0.1.0"
edition = "2021"
publish = false

[dependencies]
anyhow = "*"
clap = { version = "*", features = ["derive"] }
rmcp = { version = "*", features = ["client", "transport-child-process"] }
serde_json = "*"
serde_yaml = "*"
shell-words = "*"
tokio = { version = "*", features = ["rt-multi-thread", "process"] }
url = "*"
