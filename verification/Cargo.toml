[package]
name = "masquerade_sdk"
version = "0.1.0"
edition = "2021"
publish = false

[dependencies]
async-stream = "*"
axum = "*"
axum-extra = { version = "*", features = ["typed-header"] }
bytes = "*"
futures = "*"
http = "*"
regex = "*"
reqwest = { version = "*", features = ["json", "rustls-tls"] }
serde = { version = "*", features = ["derive"] }
serde_json = "*"
serde_yaml = "*"
thiserror = "*"
tokio = { version = "*", features = ["macros", "net", "rt-multi-thread", "sync", "time"] }
tokio-util = "*"
tracing = "*"
url = "*"
uuid = { version = "*", features = ["v5"] }
