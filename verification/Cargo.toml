[package]
name = "mediavault"
version = "0.1.0"
edition = "2021"
publish = false

[dependencies]
md5 = "*"
rusqlite = { version = "*", features = ["bundled"] }
r2d2 = "*"
r2d2_sqlite = "*"
walkdir = "*"
serde = { version = "*", features = ["derive"] }
serde_json = "*"
serde_yaml = "*"
