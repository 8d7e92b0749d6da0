[package]
name = "pcode"
version = "0.1.0"
edition = "2021"
publish = false

[dependencies]
unicode-segmentation = "1"
unicode-width = "0.1"
similar = "2"
regex = "1"
serde = { version = "1", features = ["derive"] }
serde_json = "1"
toml = "0.8"
anyhow = "1"
dirs = "5"
crossterm = "0.27"
colored = "2"
tokio = { version = "1", features = ["rt-multi-thread", "macros", "sync", "time"] }
