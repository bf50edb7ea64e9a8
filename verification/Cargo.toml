[package]
name = "bun"
version = "0.1.0"
edition = "2021"
publish = false

[dependencies]
axum = { version = "0.8", features = ["ws"] }
base64 = "0.22"
futures-util = "0.3"
hex = "0.4"
nix = { version = "*", features = ["fs", "user"] }
reqwest = { version = "0.12", default-features = false, features = ["json", "stream"] }
ring = "0.17"
serde = { version = "1", features = ["derive"] }
serde_json = "1"
sysinfo = "*"
tar = "0.4"
tokio = { version = "1", features = ["full"] }
tokio-stream = "0.1"
tokio-util = { version = "0.7", features = ["io"] }
toml = "*"
tower = { version = "0.5", features = ["util"] }
x509-parser = "*"
