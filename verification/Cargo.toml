[package]
name = "source_poller"
version = "0.1.0"
edition = "2021"
publish = false

[dependencies]
anyhow = "1"
crossterm = "0.25"
reqwest = "0.11"
serde_json = "1"
tokio = { version = "1", features = ["full"] }
tui = "0.19"
