[package]
name = "aperture"
version = "0.1.0"
edition = "2021"
publish = false

[dependencies]
sha2 = "*"
blurhash = "*"
chrono = "*"
mime = "*"
dirs = "*"
serde = { version = "*", features = ["derive"] }
serde_json = "*"
