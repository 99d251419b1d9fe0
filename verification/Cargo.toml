[package]
name = "peer_messaging"
version = "0.1.0"
edition = "2021"
publish = false

[dependencies]
async-trait = "0.1"
bincode = { version = "2", features = ["serde"] }
futures-bounded = "0.2"
libp2p = "0.53"
prost = "0.12"
serde = { version = "1", features = ["derive"] }
smallvec = "1"
tracing = "0.1"
