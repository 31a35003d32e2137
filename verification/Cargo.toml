[package]
name = "imagedrive"
version = "0.1.0"
edition = "2021"
publish = false

[dependencies]
clap = "2"
dirs = "*"
hex = "0.4"
prettytable-rs = "*"
serde = { version = "1", features = ["derive"] }
serde_derive = "1"
serde_json = "1"
sha2 = "0.8"
shiplift = "0.5"
tokio = "0.1"
tokio-core = "0.1"
walkdir = "2"
