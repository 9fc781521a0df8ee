[package]
name = "meclipboard"
version = "0.1.0"
edition = "2021"
publish = false

[dependencies]
sha2 = "0.10"
base64 = "0.22"
rusqlite = { version = "0.32", features = ["bundled"] }
image = { version = "0.25", default-features = false, features = ["png"] }
chrono = "0.4"
log = "0.4"
serde = { version = "1", features = ["derive"] }
