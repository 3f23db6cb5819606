[package]
name = "reth-malachite"
version = "0.1.0"
edition = "2021"
publish = false

[dependencies]
async-trait = "0.1"
eyre = "0.6"
informalsystems-malachitebft-config = "*"
informalsystems-malachitebft-core-types = "*"
multiaddr = "0.18"
serde = { version = "1", features = ["derive"] }
toml = "0.8"
tracing = "0.1"
