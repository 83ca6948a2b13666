[package]
name = "component_mgr"
version = "0.1.0"
edition = "2021"
publish = false

[dependencies]
async-trait = "*"
base64 = "0.22"
bytes = "*"
chrono = "*"
futures = "*"
hex = "0.4"
libc = "*"
serde = { version = "1", features = ["derive"] }
serde_json = "1"
sha2 = "0.10"
tokio = { version = "1", features = ["rt", "macros", "net", "io-util", "time", "sync"] }
tracing = "*"
