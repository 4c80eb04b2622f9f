[package]
name = "ai_gateway"
version = "0.1.0"
edition = "2021"
publish = false

[dependencies]
axum-core = "*"
futures = "*"
http = "*"
pin-project-lite = "*"
tower = "*"
tower-http = { version = "*", features = ["auth"] }
tracing = "*"
