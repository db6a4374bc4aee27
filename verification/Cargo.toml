[package]
name = "bouncarr"
version = "0.1.0"
edition = "2021"
publish = false

[dependencies]
anyhow = "*"
axum = { version = "*", features = ["ws"] }
base64 = "=0.23.1"
chrono = "=0.4.45"
config = "*"
futures-util = "*"
http-body-util = "*"
jsonwebtoken = { version = "=11.1.0", features = ["rust_crypto"] }
rand = "=0.10.3"
reqwest = { version = "*", features = ["json"] }
serde = { version = "*", features = ["derive"] }
serde_json = { version = "=1.0.151", features = ["raw_value"] }
thiserror = "*"
tokio = { version = "*", features = ["full"] }
tokio-tungstenite = "*"
tower-cookies = "*"
tower_governor = "*"
tower-http = { version = "*", features = ["trace"] }
tracing = "*"
tracing-subscriber = { version = "*", features = ["env-filter"] }
url = "=2.5.8"
urlencoding = "=2.1.3"
