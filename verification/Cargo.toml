[package]
name = "rustray"
version = "0.1.0"
edition = "2021"
publish = false

[dependencies]
itertools = "*"
log = "0.4"
clap = { version = "4", features = ["derive"] }
colog = "*"
reqwest = { version = "0.12", default-features = false, features = ["blocking", "rustls-tls"] }
