[package]
name = "astrbot_launcher"
version = "0.1.0"
edition = "2021"
publish = false

[dependencies]
axum = "0.8"
chrono = "0.4"
dirs = "5"
fern = "0.7"
flate2 = "1"
futures-util = "0.3"
libc = "0.2"
log = "0.4"
once_cell = "1"
portpicker = "0.1"
reqwest = { version = "0.12", default-features = false, features = ["json", "stream", "socks"] }
semver = "1"
serde = { version = "1", features = ["derive"] }
serde_json = "1"
tar = "0.4"
tokio = { version = "1", features = ["full"] }
tokio-stream = { version = "0.1", features = ["sync"] }
toml = "0.8"
tower-http = { version = "0.6", features = ["cors"] }
uuid = { version = "1", features = ["v4"] }
walkdir = "2"
zip = { version = "2", default-features = false, features = ["deflate"] }
