[package]
name = "bored-node"
version = "0.1.0"
edition = "2021"
publish = false

[dependencies]
libp2p = { version = "*", default-features = false, features = ["tokio", "tcp", "noise", "yamux", "mdns", "request-response", "cbor", "ping", "macros"] }
tokio = { version = "1", features = ["rt-multi-thread", "macros", "sync", "io-util", "io-std"] }
futures = "0.3"
serde = { version = "1", features = ["derive"] }
rusqlite = { version = "*", features = ["bundled"] }
dirs = "*"
