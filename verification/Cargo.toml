[package]
name = "raphael_rs"
version = "0.1.0"
edition = "2021"
publish = false

[dependencies]
rustc-hash = "2"
serde = { version = "1", features = ["derive"] }
log = "0.4"

[dev-dependencies]
rand = "0.8"
