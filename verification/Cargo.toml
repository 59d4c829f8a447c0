[package]
name = "edge_orchestrator"
version = "0.1.0"
edition = "2021"
publish = false

[dependencies]
anyhow = "1"
async-trait = "0.1"
base64 = "0.22"
chrono = { version = "0.4", default-features = false, features = ["std", "now", "serde"] }
clap = { version = "4", features = ["derive"] }
flate2 = "1"
futures = "0.3"
hex = "0.4"
libp2p = { version = "0.54", default-features = false, features = ["tokio", "tcp", "noise", "yamux", "mdns", "identify", "ping", "request-response", "macros", "ed25519"] }
lru = "0.12"
multiaddr = "0.18"
prost = "0.11"
raft = { version = "0.7", default-features = false, features = ["prost-codec"] }
serde = { version = "1", features = ["derive"] }
serde_json = "1"
serde_yaml = "0.9"
sha2 = "0.10"
slog = "2"
tar = "0.4"
tempfile = "3"
thiserror = "1"
tokio = { version = "1", features = ["rt-multi-thread", "macros", "net", "io-util", "sync", "time", "signal", "fs"] }
tracing = "0.1"
tracing-subscriber = { version = "0.3", features = ["env-filter"] }
uuid = { version = "1", features = ["v4", "serde"] }
