[package]
name = "vm_core"
version = "0.1.0"
edition = "2021"
publish = false

[dependencies]
num-bigint-dig = "*"
num-traits = "*"
rand = "*"
serde = { version = "*", features = ["derive"] }
toml = "*"
