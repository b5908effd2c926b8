[package]
name = "file_transfer"
version = "0.1.0"
edition = "2021"
publish = false

[dependencies]
anyhow = "1"
clap = { version = "4", features = ["derive"] }
get_if_addrs = "0.5"
tokio = { version = "1", features = ["rt-multi-thread", "macros", "net", "fs", "io-util"] }
