[package]
name = "penguin"
version = "0.1.0"
edition = "2021"
publish = false

[dependencies]
sha1 = "=0.10.7"
base64 = "=0.21.7"
bytes = "=1.12.1"
tokio = { version = "=1.54.1", features = ["full"] }
tokio-tungstenite = { version = "=0.30.0", features = ["rustls-tls-webpki-roots"] }
futures-util = { version = "=0.3.34", features = ["sink"] }
http = "=1.5.0"
hyper = { version = "=1.12.0", features = ["client", "server", "http1"] }
hyper-util = { version = "=0.1.21", features = ["tokio", "client-legacy", "http1"] }
axum = "=0.8.9"
axum-server = { version = "0.7", features = ["tls-rustls-no-provider"] }
rustls = { version = "0.23", default-features = false, features = ["ring", "std", "tls12"] }
parking_lot = "=0.12.5"
tracing = "=0.1.44"
tracing-subscriber = "=0.3.23"
rand = "=0.8.8"
