[package]
name = "douyin_dl"
version = "0.1.0"
edition = "2021"
publish = false

[dependencies]
json = "*"
clap = { version = "*", features = ["derive"] }
pbr = "*"
reqwest = { version = "*", default-features = false, features = ["rustls-tls"] }
tokio = { version = "*", features = ["fs", "io-util", "macros", "rt-multi-thread"] }
