[package]
name = "lspi_lsp"
version = "0.1.0"
edition = "2021"
publish = false

[dependencies]
anyhow = "1"
serde_json = "1"
sha2 = "0.10"
tokio = { version = "1", features = ["fs", "sync", "time"] }
tracing = "0.1"
