[package]
name = "scrybe_core"
version = "0.1.0"
edition = "2021"
publish = false

[dependencies]
chrono = { version = "=0.4.45", default-features = false, features = ["std", "clock"] }
ical = "=0.11.0"
hmac = "=0.12.1"
sha2 = "=0.10.9"
hex = "=0.4.3"
toml = "=0.8.23"
serde = { version = "=1.0.229", features = ["derive"] }
serde_json = "=1.0.154"
tokio = { version = "=1.54.1", features = ["rt", "macros", "time", "sync"] }
futures = "=0.3.34"
async-trait = "=0.1.92"
tracing = "=0.1.44"
thiserror = "=2.0.21"
directories = "=5.0.1"
reqwest = { version = "=0.12.28", default-features = false, features = ["json", "multipart"] }
ogg = "=0.9.2"
git2 = { version = "=0.19.0", default-features = false }
tokenizers = { version = "0.21", default-features = false, features = ["fancy-regex"] }
