[package]
name = "idl_engine"
version = "0.1.0"
edition = "2021"

[dependencies]
idlset = "*"
serde = { version = "*", features = ["derive"] }
serde_cbor = "*"
uuid = "*"
