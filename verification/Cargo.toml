[package]
name = "orb-relay-client"
version = "0.1.0"
edition = "2021"
publish = false

[dependencies]
blake3 = "1"
bon = "3"
color-eyre = "0.6"
derive_more = { version = "1", features = ["from"] }
flume = "0.11"
prost = "0.13"
secrecy = "0.10"
tokio = { version = "1", features = ["rt", "rt-multi-thread", "macros", "sync", "time"] }
tokio-stream = "0.1"
tokio-util = "0.7"
tonic = { version = "0.12", features = ["tls", "tls-native-roots"] }
tracing = "0.1"
