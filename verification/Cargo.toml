[package]
name = "create_gadget"
version = "0.1.0"
edition = "2021"
publish = false

[dependencies]
ethers-core = { version = "0.17.0", default-features = false }
halo2_proofs = { version = "0.3", default-features = false }
