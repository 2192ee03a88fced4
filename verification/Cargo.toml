[package]
name = "rrchat"
version = "0.1.0"
edition = "2021"
publish = false

[dependencies]
actix = "=0.13.5"
actix-web = { version = "=4.18.1", default-features = false, features = ["macros", "openssl", "ws"] }
actix-web-actors = "=4.3.1"
chrono = "=0.4.45"
openssl = "=0.10.82"
serde = { version = "=1.0.229", features = ["derive"] }
serde_json = "=1.0.154"
uuid = { version = "=1.29.1", features = ["v4", "serde"] }
