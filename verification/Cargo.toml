[package]
name = "polkadot_consensus"
version = "0.1.0"
edition = "2021"
publish = false

[dependencies]
blake2-rfc = "0.2"
ed25519 = "2"
ed25519-dalek = "2"
futures = "0.1"
log = "0.4"
parking_lot = "0.12"
