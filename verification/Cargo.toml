[package]
name = "surf"
version = "0.3.8"
edition = "2021"
publish = false

[dependencies]
anyhow = "1"
chrono = { version = "0.4", features = ["serde"] }
clap = { version = "4", features = ["derive"] }
colored = "2"
crossterm = "0.25"
dirs = "5"
futures-util = "0.3"
indicatif = "0.17"
rand = "0.9"
reqwest = { version = "0.12", features = ["stream"] }
serde = { version = "1", features = ["derive"] }
serde_json = "1"
thiserror = "1"
tokio = { version = "1", features = ["full"] }
toml = "0.8"
tui = "0.19"
uuid = { version = "1", features = ["v4"] }
