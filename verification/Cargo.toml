[package]
name = "cmux_preview_proxy"
version = "0.1.0"
edition = "2021"
publish = false

[dependencies]
url = "=2.5.8"
base64 = "=0.22.1"
rand = "=0.8.8"
http = "=1.5.0"
dashmap = "=6.2.1"
percent-encoding = "=2.3.2"
sha1 = "=0.10.7"
uuid = { version = "=1.29.0", features = ["v4"] }
tokio = { version = "=1.54.1", features = ["full"] }
hyper = { version = "=1.12.0", features = ["full"] }
hyper-util = { version = "=0.1.21", features = ["full"] }
http-body-util = "=0.1.5"
bytes = "=1.12.1"
hyper-rustls = { version = "=0.27.10", default-features = false, features = ["http1", "http2", "ring", "tls12", "webpki-roots"] }
serde = { version = "=1.0.229", features = ["derive"] }
serde_json = "=1.0.154"
tokio-tungstenite = { version = "=0.30.0", features = ["rustls-tls-webpki-roots"] }
futures-util = "=0.3.34"
chrono = { version = "=0.4.45", features = ["serde"] }
ratatui = "=0.29.0"
crossterm = { version = "=0.28.1", features = ["event-stream"] }
tui-textarea = "=0.7.0"
pulldown-cmark = "=0.13.5"
syntect = { version = "=5.3.0", default-features = false, features = ["default-fancy"] }
two-face = { version = "=0.5.2", default-features = false, features = ["syntect-fancy"] }
agent-client-protocol = "=3.5.0"
tokio-util = { version = "=0.7.20", features = ["compat"] }
clap = { version = "4", features = ["derive", "env"] }
