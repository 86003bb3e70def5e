[package]
name = "bdstorage"
version = "0.1.0"
edition = "2021"
publish = false

[dependencies]
anyhow = "1"
bincode = "1"
crossbeam = "0.8"
redb = "2"
serde = { version = "1", features = ["derive"] }
