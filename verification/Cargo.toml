[package]
name = "area_translator"
version = "0.1.0"
edition = "2021"
publish = false

[dependencies]
anyhow = "=1.0.104"
ashpd = { version = "=0.13.13", default-features = false, features = ["tokio", "screencast"] }
base64 = "=0.22.1"
futures-util = "=0.3.34"
gstreamer = "=0.23.7"
gstreamer-app = "=0.23.5"
gstreamer-video = "=0.23.6"
lru = "=0.19.0"
png = "=0.18.1"
reqwest = { version = "=0.12.28", default-features = false, features = ["json", "rustls-tls"] }
serde = { version = "=1.0.229", features = ["derive"] }
serde_json = "=1.0.154"
tokio = { version = "=1.54.1", features = ["rt-multi-thread", "macros", "sync", "time", "signal"] }
tracing = "=0.1.44"
tracing-subscriber = { version = "=0.3.23", features = ["env-filter"] }
zbus = { version = "=5.19.0", default-features = false, features = ["tokio"] }
