[package]
name = "mbtiles"
version = "0.1.0"
edition = "2021"
publish = false

[dependencies]
flate2 = "1"
r2d2 = "*"
r2d2_sqlite = { version = "*", features = ["bundled"] }
serde_json = "1"
