[package]
name = "veloren_server"
version = "0.1.0"
edition = "2021"
publish = false

[dependencies]
hashbrown = "0.5"
vek = "*"
rand = "*"
serde = { version = "1", features = ["derive"] }
bincode = "1"
ron = "*"
uvth = "*"
log = "*"
