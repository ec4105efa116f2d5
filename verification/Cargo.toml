[package]
name = "g_forms"
version = "0.1.0"
edition = "2021"
publish = false

[dependencies]
chrono = "*"
regex = "*"
reqwest = { version = "*", default-features = false }
serde = { version = "*", features = ["derive"] }
serde_json = "*"
