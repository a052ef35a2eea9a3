[package]
name = "dagashi"
version = "0.1.0"
edition = "2021"
publish = false

[dependencies]
sha2 = "0.10"
regex = "1"
serde = { version = "1", features = ["derive"] }
serde_json = "1"
chrono = "0.4"
dirs = "5"
reqwest = { version = "0.12", default-features = false, features = ["blocking", "json", "rustls-tls"] }
image = { version = "0.25", default-features = false, features = ["gif", "png", "jpeg"] }
rand = "0.8"
rdev = "0.5"
