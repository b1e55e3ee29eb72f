[package]
name = "lfm25_audio_onnx"
version = "0.1.0"
edition = "2021"
publish = false

[dependencies]
abi_stable = "=0.11.3"
async-trait = "=0.1.92"
ort = { version = "=2.0.0-rc.10", default-features = false, features = ["std", "load-dynamic"] }
parking_lot = "=0.12.5"
rand = "=0.8.8"
remotemedia-plugin-sdk = "=0.5.0"
rustfft = "=6.4.1"
serde = { version = "=1.0.229", features = ["derive"] }
serde_json = "=1.0.154"
tokenizers = { version = "=0.21.4", default-features = false, features = ["fancy-regex"] }
tokio = { version = "=1.54.1", features = ["rt", "sync"] }
tracing = "=0.1.44"
