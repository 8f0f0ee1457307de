[package]
name = "comics"
version = "0.1.0"
edition = "2021"
publish = false

[dependencies]
bytes = "*"
clap = "*"
glob = "*"
walkdir = "*"
reqwest = { version = "*", default-features = false, features = ["blocking", "rustls-tls"] }
