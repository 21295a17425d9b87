[package]
name = "orderbook_aggregator"
version = "0.1.0"
edition = "2021"
publish = false

[dependencies]
async-stream = "0.3"
clap = { version = "4", features = ["derive"] }
futures = "0.3"
futures-core = "0.3"
prost = "0.13"
rust_decimal = "1"
serde = { version = "1", features = ["derive"] }
serde_json = "1"
tokio = { version = "1", features = ["macros", "rt-multi-thread", "sync", "net"] }
tokio-stream = { version = "0.1", features = ["sync"] }
tokio-tungstenite = { version = "0.21", features = ["rustls-tls-webpki-roots"] }
tonic = "0.12"
