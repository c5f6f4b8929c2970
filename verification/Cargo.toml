[package]
name = "beat_sharer"
version = "0.1.0"
edition = "2021"
publish = false

[dependencies]
reqwest = { version = "*", default-features = false, features = ["blocking"] }
zip = { version = "*", default-features = false, features = ["deflate"] }
tokio = { version = "*", features = ["rt-multi-thread", "macros", "sync"] }
