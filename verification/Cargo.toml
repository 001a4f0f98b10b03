[package]
name = "media_store"
version = "0.1.0"
edition = "2021"
publish = false

[dependencies]
relative-path = "1"
lexical-sort = "*"
sanitize-filename = "*"
rand = "0.8"
home = "*"
serde = { version = "1", features = ["derive"] }
tokio = { version = "1", features = ["fs", "process", "rt-multi-thread", "macros", "io-util"] }
