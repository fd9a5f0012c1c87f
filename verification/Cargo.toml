[package]
name = "zauth"
version = "0.1.0"
edition = "2021"
publish = false

[dependencies]
base64 = "0.22"
ed25519-compact = "2"
jwt-simple = { version = "0.12", default-features = false, features = ["pure-rust"] }
libc = "0.2"
serde = { version = "1", features = ["derive"] }
serde_json = "1"
thiserror = "1"
