[package]
name = "toki-core"
version = "0.1.0"
edition = "2021"
publish = false

[dependencies]
blake3 = { version = "*", features = ["pure"] }
zstd = "*"
image = { version = "*", default-features = false, features = ["png"] }
serde = { version = "*", features = ["derive"] }
serde_json = "*"
toml = "*"
glam = "*"
