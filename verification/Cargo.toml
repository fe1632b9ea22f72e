[package]
name = "rxiu"
version = "0.3.0"
edition = "2021"
publish = false

[dependencies]
sha2 = "0.10"
semver = "1"
serde = { version = "1", features = ["derive"] }
serde_json = "1"
cbor4ii = { version = "0.3", features = ["serde1"] }
toml = "0.8"
chrono = { version = "0.4", features = ["serde"] }
dirs = "5"
thiserror = "1"
tokio = { version = "1", features = ["full"] }
futures = "0.3"
async-trait = "0.1"
libp2p = { version = "0.54", features = ["tokio", "tcp", "noise", "yamux", "mdns", "request-response", "macros"] }
crossterm = "0.28"
ratatui = "0.29"
tracing = "0.1"
tracing-subscriber = { version = "0.3", features = ["env-filter"] }
scopeguard = "1"
libc = "0.2"
