[package]
name = "wat_service"
version = "0.1.0"
edition = "2021"
publish = false

[dependencies]
hashbrown = "0.15"
rustc-hash = "2"
smallvec = "1"
line-index = "0.1"
itertools = "0.14"
serde = { version = "1", features = ["derive"] }
serde_json = "1"
lspt = "*"
