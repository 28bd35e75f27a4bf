[package]
name = "webb_relayer"
version = "0.1.0"
edition = "2021"
publish = false

[dependencies]
ethers-core = "2"
ethers-signers = "2"
k256 = "0.13"
rand = "0.8"
tiny-keccak = { version = "2", features = ["keccak"] }

[dev-dependencies]
hex = "0.4"
