[package]
name = "mailalias"
version = "0.1.0"
edition = "2021"
publish = false

[dependencies]
urlencoding = "2"
rocket = "0.5"
rusqlite = { version = "*", features = ["bundled"] }
rand = "0.8"
lazy_static = "1"
