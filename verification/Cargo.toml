[package]
name = "bloom_triad"
version = "0.1.0"
edition = "2021"
publish = false

[dependencies]
base64 = "0.22"
ed25519-dalek = "2"
hex = "0.4"
libc = "0.2"
rand = "0.8"
rustix = { version = "1", features = ["process", "time"] }
serde = { version = "1", features = ["derive"] }
serde_jcs = "*"
serde_json = "1"
sha2 = "0.10"
thiserror = "2"
tokio = { version = "1", features = ["io-util", "net", "sync", "rt", "macros", "time"] }
tracing = "0.1"
tracing-subscriber = { version = "0.3", features = ["env-filter", "fmt", "json", "registry"] }
