[package]
name = "tpv_store"
version = "0.1.0"
edition = "2021"
publish = false

[dependencies]
sha2 = "0.10"
hex = "0.4"
base64 = "0.22"
serde = { version = "1", features = ["derive"] }
serde_json = "1"
rusqlite = { version = "*", features = ["bundled"] }
chrono = "0.4"
reqwest = { version = "0.12", default-features = false, features = ["blocking", "json"] }
