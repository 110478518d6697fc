[package]
name = "turtle"
version = "0.1.0"
edition = "2021"
publish = false

[dependencies]
libp2p = { version = "=0.53.2", features = ["tcp", "tokio", "noise", "yamux", "mdns", "kad", "ping", "identify", "request-response", "macros", "ed25519"] }
tokio = { version = "*", features = ["full"] }
tracing = "*"
async-trait = "*"
