[package]
name = "progressbox"
version = "0.1.0"
edition = "2021"
publish = false

[dependencies]
chrono = "=0.4.45"
uuid = { version = "=1.29.0", features = ["v4"] }
serde = { version = "=1.0.229", features = ["derive"] }
serde_json = "=1.0.154"
axum = "=0.8.9"
tokio = { version = "=1.54.1", features = ["full"] }
dashmap = "=6.2.1"
rusqlite = "=0.41.1"
lettre = { version = "=0.11.23", default-features = false, features = ["smtp-transport", "builder", "rustls-tls"] }
rumqttc = "=0.25.1"
influxdb2 = "=0.5.2"
reqwest = { version = "=0.13.5", default-features = false }
tower_governor = "=0.8.0"
dotenvy = "=0.15.7"
utoipa = { version = "=5.5.0", features = ["chrono"] }
toml = "*"
influxdb2-structmap = "=0.2.0"
