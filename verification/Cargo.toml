[package]
name = "displaymux"
version = "0.1.0"
edition = "2021"
publish = false

[dependencies]
anyhow = "1"
core-foundation = "0.10"
hex = "=0.4.3"
hmac = "=0.12.1"
hostname = "=0.4.2"
io-kit-sys = "*"
mac_address = "1"
mdns-sd = "=0.21.7"
reqwest = { version = "=0.12.28", default-features = false, features = ["rustls-tls"] }
serde = { version = "1", features = ["derive"] }
serde_json = "=1.0.154"
sha2 = "=0.10.9"
tokio = { version = "=1.54.1", features = ["io-util", "macros", "net", "rt-multi-thread", "sync", "time"] }
tracing = "0.1"
tracing-subscriber = { version = "0.3", features = ["env-filter"] }
windows-sys = { version = "0.61", features = ["Win32_Foundation", "Win32_System_Registry"] }
