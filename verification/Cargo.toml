[package]
name = "s5_rust"
version = "0.1.0"
edition = "2021"
publish = false

[dependencies]
base58 = "0.2"
bincode = "1"
bs58 = "0.4"
ed25519-dalek = "1"
rand = "0.8"
rmp = "0.8"
rmpv = "1"
serde = { version = "1", features = ["derive"] }
sha2 = "0.10"
sled = "0.34"
state = "0.4"
tokio = { version = "1", features = ["full"] }
toml = "0.5"
url = "2"
