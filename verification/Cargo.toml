[package]
name = "relay_hub"
version = "0.1.0"
edition = "2021"
publish = false

[dependencies]
anyhow = "=1.0.104"
bytes = "=1.12.1"
clap = { version = "=4.6.7", features = ["derive"] }
dashmap = "=6.2.1"
derive_more = { version = "=2.1.1", features = ["debug"] }
ed25519-dalek = "=3.0.0"
futures = "=0.3.34"
hex = "=0.4.3"
http = "=1.5.0"
http-body-util = "=0.1.5"
hyper = { version = "=1.12.0", features = ["http1", "server"] }
hyper-util = { version = "=0.1.21", features = ["tokio"] }
iroh-metrics = "=1.0.2"
moka = { version = "=0.12.16", features = ["future"] }
pkarr = { version = "=8.1.0", default-features = false, features = ["signed_packet"] }
regex = "=1.13.1"
rustls = "=0.23.46"
rustls-pemfile = "=2.2.0"
serde = { version = "=1.0.229", features = ["derive"] }
serde_json = "=1.0.154"
sha2 = "=0.11.1"
tokio = { version = "=1.54.1", features = ["full"] }
tokio-rustls = "=0.26.6"
tokio-rustls-acme = "=0.9.1"
tokio-tungstenite = "=0.30.0"
tokio-util = { version = "=0.7.20", features = ["codec", "rt"] }
toml = "=1.1.8"
tracing = "=0.1.44"
tracing-subscriber = { version = "=0.3.23", features = ["env-filter"] }
