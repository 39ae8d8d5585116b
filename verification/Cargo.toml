[package]
name = "cryptoballot"
version = "0.1.0"
edition = "2021"
publish = false

[dependencies]
clap = "=2.34.0"
cryptid = "=0.2.8"
ed25519-dalek = { version = "=1.0.1", features = ["serde"] }
hex = "=0.4.3"
rand = "=0.7.3"
serde = { version = "=1.0.229", features = ["derive"] }
serde_cbor = "=0.11.2"
serde_json = "=1.0.154"
tallystick = { version = "=0.4.3", default-features = false }
uuid = { version = "=0.8.2", features = ["serde", "v4"] }
