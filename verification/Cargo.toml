[package]
name = "repo_gc"
version = "0.1.0"
edition = "2021"
publish = false

[dependencies]
syn = { version = "2", features = ["full", "visit", "fold", "parsing", "printing"] }
quote = "1"
proc-macro2 = "1"
serde = { version = "1", features = ["derive"] }
serde_json = "1"
clap = { version = "4", features = ["derive"] }
walkdir = "2"
cargo_metadata = "*"
colored = "*"
rayon = "1"
anyhow = "1"
