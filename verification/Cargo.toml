[package]
name = "vine"
version = "0.1.0"
edition = "2021"
publish = false

[dependencies]
base64 = "0.22"
bytes = "1"
ed25519-dalek = "2.2"
hex = "0.4"
hmac = "0.13"
num-bigint = "0.4"
rand = "0.9"
reqwest = { version = "0.12", default-features = false }
rsa = "0.9"
serde = { version = "1", features = ["derive"] }
serde_json = "1"
sha1 = "0.11"
sha2 = "0.11"
socket2 = { version = "0.6", features = ["all"] }
thiserror = "2"
tokio = { version = "1", features = ["full"] }
toml = "0.9"
tracing = "0.1"
tracing-subscriber = { version = "0.3", features = ["env-filter"] }
uuid = { version = "1", features = ["v3", "v4", "serde"] }
wasmtime = { version = "45", default-features = false, features = ["runtime", "component-model", "component-model-async", "async", "cranelift", "std"] }
wasmtime-wasi = { version = "45", default-features = false, features = ["p2"] }
