[package]
name = "vaultmesh"
version = "0.1.0"
edition = "2021"
publish = false

[dependencies]
anyhow = "1"
axum = "0.7"
base64 = "0.22"
blake3 = "1"
bs58 = "0.5"
chrono = "0.4"
clap = { version = "4", features = ["derive"] }
dirs = "5"
ed25519-dalek = "1"
env_logger = "0.11"
getrandom = "0.2"
hex = "0.4"
jsonschema = { version = "0.17", default-features = false }
percent-encoding = "2"
serde = { version = "1", features = ["derive"] }
serde_json = "1"
tokio = { version = "1", features = ["macros", "rt-multi-thread", "net", "time"] }
toml = "0.8"
tower = { version = "0.4", features = ["limit"] }
tower-http = { version = "0.5", features = ["trace"] }
ulid = "1"
zeroize = "1"
