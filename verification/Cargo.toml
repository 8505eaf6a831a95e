[package]
name = "wasm_pack"
version = "0.1.0"
edition = "2021"
publish = false

[dependencies]
toml = "*"
npmrc = "*"

[dev-dependencies]
serde_json = "*"
