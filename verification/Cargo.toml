[package]
name = "stateless"
version = "0.1.0"
edition = "2021"
publish = false

[dependencies]
alloy-consensus = "*"
alloy-eips = "*"
alloy-primitives = "*"
alloy-rlp = "*"
reth-primitives-traits = "*"
revm = { version = "*", default-features = false, features = ["std"] }
thiserror = "2"
