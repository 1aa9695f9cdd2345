[package]
name = "bse"
version = "0.1.0"
edition = "2021"
publish = false

[dependencies]
uuid = { version = "=1.29.1", features = ["v4", "v7"] }
url = "=2.5.8"
serde = { version = "=1.0.229", features = ["derive"] }
serde_json = "=1.0.154"
rmp-serde = "=1.3.1"
rusqlite = { version = "=0.32.1", features = ["bundled"] }
axum = { version = "=0.7.9", features = ["ws"] }
tokio = { version = "=1.54.1", features = ["full"] }
tokio-tungstenite = "=0.24.0"
futures-util = "=0.3.34"
tower-http = { version = "=0.6.11", features = ["cors", "set-header", "trace"] }
tower_governor = "=0.4.3"
governor = "=0.6.3"
tracing = "=0.1.44"
tracing-subscriber = { version = "=0.3.23", features = ["env-filter"] }
glam = "=0.29.3"
bytemuck = { version = "1", features = ["derive"] }
thiserror = "=1.0.69"
