[package]
name = "enm"
version = "0.1.0"
edition = "2021"
publish = false

[dependencies]
chacha20poly1305 = "=0.10.1"
password-hash = { version = "=0.5.0", features = ["rand_core"] }
pbkdf2 = "=0.12.2"
sha2 = "=0.10.9"
serde = { version = "=1.0.229", features = ["derive"] }
serde_json = "=1.0.154"
zeroize = { version = "=1.9.1", features = ["derive"] }
thiserror = "=1.0.69"
bincode = "=1.3.3"
sled = "=0.34.7"
log = "=0.4.34"
env_logger = { version = "=0.11.11", default-features = false }
image = { version = "0.24", default-features = false, features = ["png"] }
eframe = { version = "0.27", default-features = false, features = ["glow", "default_fonts"] }
