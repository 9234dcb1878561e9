[package]
name = "hatch_chat"
version = "0.7.0"
edition = "2021"
publish = false

[dependencies]
libp2p = { version = "0.54", features = ["autonat", "cbor", "dcutr", "dns", "ed25519", "gossipsub", "identify", "kad", "macros", "mdns", "noise", "quic", "relay", "request-response", "tcp", "tokio", "yamux"] }
redb = "2"
serde = { version = "1", features = ["derive"] }
serde_json = "1"
tokio = { version = "1", features = ["full"] }
futures = "0.3"
tracing = "0.1"
tracing-subscriber = { version = "0.3", features = ["env-filter"] }
clap = { version = "4", features = ["derive"] }
crossterm = "0.27"
ratatui = "0.26"
