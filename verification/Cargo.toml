[package]
name = "junction_rs"
version = "0.1.0"
edition = "2021"
publish = false

[dependencies]
anyhow = "1"
async-trait = "*"
cargo_metadata = "*"
chrono = "0.4"
clap = { version = "4", features = ["derive"] }
dialoguer = "*"
hex = "0.4"
inventory = "*"
proc-macro2 = "1"
quote = "1"
regex = "1"
serde = { version = "1", features = ["derive"] }
serde_json = "1"
sha2 = "0.10"
syn = { version = "2", features = ["full"] }
thiserror = "*"
toml = "*"
toml_edit = "*"
uuid = { version = "1", features = ["v4"] }
walkdir = "2"
