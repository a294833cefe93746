[package]
name = "noma"
version = "0.1.0"
edition = "2021"
publish = false

[dependencies]
anyhow = "1"
serde = { version = "1", features = ["derive"] }
serde_json = "1"
toml = "0.8"
dirs = "5"
ureq = "2"
bzip2 = "0.4"
tar = "0.4"
arboard = { version = "3", default-features = false }
