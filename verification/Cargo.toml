[package]
name = "nostr_sdk"
version = "0.1.0"
edition = "2021"
publish = false

[dependencies]
anyhow = "=1.0.104"
crossbeam-channel = "=0.5.17"
futures-util = "=0.3.34"
log = "=0.4.34"
nostr-sdk-base = "=0.1.5"
tokio = { version = "=1.54.1", features = ["rt-multi-thread", "sync", "time"] }
tokio-tungstenite = "=0.18.0"
url = "=2.5.8"
