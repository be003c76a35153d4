[package]
name = "mcp_tools"
version = "0.1.0"
edition = "2021"
publish = false

[dependencies]
anyhow = "*"
rusqlite = { version = "*", features = ["bundled"] }
rustyline = "*"
serde = { version = "*", features = ["derive"] }
thiserror = "*"
toml = "*"
