[package]
name = "twin4rust"
version = "0.1.0"
edition = "2021"
publish = false

[dependencies]
syn = { version = "2", features = ["full"] }
quote = "1"
serde_json = "1"
cargo_metadata = "*"
walkdir = "2"
clap = { version = "4", features = ["derive"] }
anyhow = "1"
