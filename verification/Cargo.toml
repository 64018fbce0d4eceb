[package]
name = "storage_ledger"
version = "0.1.0"
edition = "2021"
publish = false

[dependencies]
digest = "0.10"
futures = "0.3"
libp2p = { version = "*", features = ["ed25519", "gossipsub", "macros", "mdns", "noise", "quic", "tcp", "tokio", "yamux"] }
libp2p-identity = { version = "*", features = ["ed25519", "peerid", "rand"] }
rand = "0.9"
rand_chacha = "0.9"
serde = { version = "1", features = ["derive"] }
serde_json = "1"
sha2 = "0.10"
tokio = { version = "1", features = ["full"] }
tracing-subscriber = { version = "0.3", features = ["env-filter"] }
uuid = { version = "1", features = ["v4"] }
