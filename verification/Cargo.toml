[package]
name = "robin_hood_manager"
version = "0.1.0"
edition = "2021"
publish = false

[dependencies]
cosmwasm-std = "=1.5.11"
cw-storage-plus = "=1.2.0"
neutron-sdk = "=0.6.1"
# Named only to hold the version: neutron-sdk 0.6.1 ships code generated for
# exactly this protobuf runtime and does not compile against a later one.
protobuf = "=3.2.0"
schemars = "=0.8.22"
serde = { version = "=1.0.229", default-features = false, features = ["derive"] }
serde-json-wasm = "=0.5.2"
