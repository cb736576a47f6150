[package]
name = "verwalter"
version = "0.1.0"
edition = "2021"
publish = false

[dependencies]
hex = "0.3"
itertools = "0.8"
sha1 = "0.6"
serde = { version = "1", features = ["derive"] }
serde_json = "1"
serde_cbor = "0.9"
humantime = "1"
tk-http = "0.3"

[dev-dependencies]
serde_json = "1"
