[package]
name = "typed_fdb"
version = "0.1.0"
edition = "2021"
publish = false

[dependencies]
assembly-core = "*"
assembly-fdb = "*"
serde = { version = "*", features = ["derive"] }
