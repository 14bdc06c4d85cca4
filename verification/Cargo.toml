[package]
name = "westiny"
version = "0.1.0"
edition = "2021"
publish = false

[dependencies]
array-init = "2"
serde = { version = "1", features = ["derive"] }
bincode = "1"
ron = "0.8"
thiserror = "1"
anyhow = "1"
log = "0.4"
rand = "0.8"
bevy = { version = "0.8", default-features = false }
