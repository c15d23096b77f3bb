[package]
name = "casper_node"
version = "0.1.0"
edition = "2021"
publish = false

[dependencies]
blake2 = "0.8"
num-rational = { version = "0.3", default-features = false }
rand = "0.7"
smallvec = "1"
semver = "0.11"
prometheus = { version = "0.11", default-features = false }
serde = { version = "1", features = ["derive"] }
thiserror = "1"
tracing = "0.1"
derive_more = "0.99"
tokio = { version = "1", features = ["rt", "sync", "time"] }
futures = "0.3"
