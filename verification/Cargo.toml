[package]
name = "phonebridge"
version = "0.1.0"
edition = "2021"
publish = false

[dependencies]
arboard = { version = "3", default-features = false }
chrono = "0.4"
env_logger = "0.11"
if-addrs = "0.13"
libc = "0.2"
local-ip-address = "0.6"
log = "0.4"
os_info = { version = "3", default-features = false }
serde = { version = "1", features = ["derive"] }
serde_json = "1"
