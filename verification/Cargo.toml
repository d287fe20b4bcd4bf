[package]
name = "sinitc"
version = "0.1.0"
edition = "2021"
publish = false

[dependencies]
sysinfo = "*"
toml = "*"
serde = { version = "*", features = ["derive"] }
clap = { version = "*", features = ["derive"] }
glob = "*"
