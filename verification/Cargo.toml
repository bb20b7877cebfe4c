[package]
name = "refactor"
version = "0.1.0"
edition = "2021"
publish = false

[dependencies]
blake3 = "1"
regex = "1"
clap = { version = "4", features = ["derive"] }
console = "*"
ignore = "*"
rayon = "1"
reqwest = { version = "*", default-features = false, features = ["blocking", "json", "rustls-tls"] }
serde = { version = "1", features = ["derive"] }
serde_json = "1"
tempfile = "3"
thiserror = "*"
toml = "*"
walkdir = "2"
