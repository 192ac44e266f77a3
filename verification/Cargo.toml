[package]
name = "pocket_scan"
version = "0.1.0"
edition = "2021"
publish = false

[dependencies]
base64 = "=0.22.1"
hmac = "=0.12.1"
sha1 = "=0.10.7"
serde = { version = "=1.0.229", features = ["derive"] }
serde_json = "=1.0.154"
strum = { version = "=0.27.2", features = ["derive"] }
tokio = { version = "=1.54.1", features = ["rt-multi-thread", "macros", "sync", "time"] }
tracing = "=0.1.44"
color-eyre = { version = "=0.6.5", default-features = false }
evdev = "=0.13.2"
reqwest = { version = "=0.12.28", default-features = false, features = ["json", "multipart", "rustls-tls"] }
meshtastic = { version = "=0.1.9", default-features = false, features = ["tokio"] }
ratatui = "=0.30.2"
ratatui-image = { version = "=11.1.0", default-features = false }
image = { version = "=0.25.10", default-features = false, features = ["gif"] }
