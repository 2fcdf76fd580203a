[package]
name = "xi_term"
version = "0.1.0"
edition = "2021"
publish = false

[dependencies]
termion = "1.5"
indexmap = "1"
serde = { version = "1", features = ["derive"] }
serde_json = "1"
json5 = "0.2"
xrl = "*"
tokio = "0.1"
futures = "0.1"
failure = "0.1"
