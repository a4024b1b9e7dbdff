[package]
name = "thumbcloud"
version = "0.1.0"
edition = "2021"
publish = false

[dependencies]
serde_json = "1"
serde = { version = "1", features = ["derive"] }
htmlescape = "0.3"
pretty-bytes = "0.2"
clap = "2"
machine-ip = "0.2"
actix = "0.7"
actix-web = "0.7"
futures = "0.1"
askama = "0.7"
