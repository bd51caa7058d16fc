[package]
name = "telco_quota"
version = "0.1.0"
edition = "2021"
publish = false

[dependencies]
secrecy = "=0.10.3"
parking_lot = "=0.12.5"
rusqlite = { version = "=0.40.2", features = ["bundled"] }
console_error_panic_hook = "*"
