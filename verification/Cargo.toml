[package]
name = "loom"
version = "0.1.0"
edition = "2021"
publish = false

[dependencies]
blake2 = "0.10"
chacha20poly1305 = "0.10"
data-encoding = "2"
ed25519-dalek = "2"
hex = "0.4"
hkdf = "0.12"
log = "0.4"
mdns-sd = "0.11"
rand = "0.8"
rusqlite = { version = "0.31", features = ["bundled"] }
serde = { version = "1", features = ["derive"] }
serde_json = "1"
sha2 = "0.10"
thiserror = "1"
tokio = { version = "1", features = ["full"] }
uniffi = "0.28"
uuid = { version = "1", features = ["v4"] }
x25519-dalek = { version = "2", features = ["static_secrets"] }
