[package]
name = "oauth2_mock"
version = "0.1.0"
edition = "2021"
publish = false

[dependencies]
url = "*"
uuid = { version = "*", features = ["v4"] }
serde = { version = "*", features = ["derive"] }
serde_json = "*"
axum = "*"
tokio = { version = "*", features = ["rt-multi-thread", "macros", "net"] }
clap = { version = "*", features = ["derive"] }
tracing = "*"
tracing-subscriber = "*"
handlebars = "*"
tower-http = { version = "*", features = ["cors"] }
