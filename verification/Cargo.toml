[package]
name = "convergio"
version = "0.1.0"
edition = "2021"
publish = false

[dependencies]
toml = "=0.8.23"
serde = { version = "=1.0.229", features = ["derive"] }
serde_json = "=1.0.154"
clap = { version = "=4.6.7", features = ["derive"] }
walkdir = "=2.5.0"
anyhow = "=1.0.104"
colored = "=2.2.0"
rand = "=0.8.8"
reqwest = { version = "=0.12.28", default-features = false, features = ["blocking", "json"] }
cargo_metadata = "0.19"
