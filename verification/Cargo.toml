[package]
name = "rtt_harness"
version = "0.1.0"
edition = "2021"
publish = false

[dependencies]
anyhow = "1"
bytes = "1"
chrono = "0.4"
clap = { version = "4", features = ["derive"] }
csv = "1"
env_logger = "0.11"
futures-util = "0.3"
log = "0.4"
rustls = "0.23"
rustls-pemfile = "2"
serde_json = "1"
tokio = { version = "1", features = ["full"] }
tokio-native-tls = "0.3"
tokio-tungstenite = "*"
tracing = "0.1"
tracing-subscriber = { version = "0.3", features = ["env-filter"] }
udp-dtls = "0.1"
url = "2"
web-transport-quinn = "*"
webrtc = "0.11"
wtransport = { version = "*", features = ["dangerous-configuration", "self-signed"] }
