[package]
name = "wawona_relay"
version = "0.1.0"
edition = "2021"
publish = false

[dependencies]
wasmparser = "*"
sha2 = "*"
ed25519-dalek = "2"
serde = { version = "1", features = ["derive"] }
serde_json = "1"
thiserror = "*"
anyhow = "1"
flate2 = "1"
tar = "*"
zstd = "*"
libc = "0.2"
