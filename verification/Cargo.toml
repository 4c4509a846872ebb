[package]
name = "cargo-n64"
version = "0.1.0"
edition = "2021"
publish = false

[dependencies]
colored = "=3.1.1"
crc32fast = "=1.5.3"
error-iter = "=0.4.1"
fatfs = { version = "=0.3.6", default-features = false, features = ["std", "alloc"] }
goblin = "=0.10.7"
gumdrop = "=0.8.1"
serde = { version = "=1.0.229", features = ["derive"] }
serde_json = "=1.0.154"
thiserror = "=2.0.21"
