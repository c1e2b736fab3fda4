[package]
name = "kfc_tools"
version = "0.1.0"
edition = "2021"
publish = false

[dependencies]
anyhow = "1"
clap = { version = "4", features = ["derive"] }
colored = "2"
crossbeam-channel = "0.5"
indexmap = "2"
indicatif = "0.17"
png = "0.17"
serde_json = "1"
thiserror = "1"
walkdir = "2"
