[package]
name = "veritas"
version = "0.1.0"
edition = "2021"
publish = false

[dependencies]
chrono = { version = "0.4", default-features = false, features = ["alloc"] }
serde = { version = "1", features = ["derive"] }
serde_json = "1"
csv = "1"
directories = "*"
anyhow = "1"
log = "0.4"
