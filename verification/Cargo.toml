[package]
name = "vita"
version = "0.1.0"
edition = "2021"
publish = false

[dependencies]
serde = { version = "1", features = ["derive"] }
serde_json = "1"
url = "2"
surf = { version = "2", default-features = false, features = ["h1-client-rustls"] }
