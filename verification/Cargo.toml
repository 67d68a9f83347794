[package]
name = "adb_dump"
version = "0.1.0"
edition = "2021"
publish = false

[dependencies]
chrono = { version = "=0.4.45", default-features = false }
hex = "=0.4.3"
unix_mode = "=0.1.4"
zip = { version = "=0.5.13", default-features = false, features = ["deflate"] }
