[package]
name = "static_file_server"
version = "0.1.0"
edition = "2021"
publish = false

[dependencies]
mime_guess = "2"
tokio = { version = "1", features = ["io-util", "macros", "net", "rt-multi-thread", "sync"] }
