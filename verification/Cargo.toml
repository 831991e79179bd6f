[package]
name = "oko"
version = "0.1.0"
edition = "2021"
publish = false

[dependencies]
password-auth = "*"
time = "*"
serde = { version = "*", features = ["derive"] }
serde_json = "*"
tokio = { version = "*", features = ["full"] }
tokio-util = { version = "*", features = ["rt"] }
futures-util = "*"
axum = { version = "*", features = ["ws"] }
