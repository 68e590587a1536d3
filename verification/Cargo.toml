[package]
name = "client-backend"
version = "0.1.0"
edition = "2021"
publish = false

[dependencies]
regex = "1"
chrono = { version = "0.4", features = ["serde"] }
crc32fast = "1"
byteorder = "1"
keyvalues-parser = "*"
steamid-ng = "*"
tokio = { version = "1", features = ["full"] }
serde = { version = "1", features = ["derive"] }
serde_json = "1"
serde_yaml = "0.9"
rcon = { version = "*", features = ["rt-tokio"] }
notify = "*"
tf-demo-parser = "*"
bitbuffer = "*"
steam-rs = "*"
axum = "0.6"
tower-http = { version = "0.4", features = ["cors"] }
tokio-stream = "0.1"
futures = "0.3"
reqwest = { version = "0.11", default-features = false, features = ["json", "rustls-tls"] }
tokio-tungstenite = "*"
tracing = "0.1"
tracing-subscriber = { version = "0.3", features = ["env-filter"] }
clap = { version = "4", features = ["derive"] }
directories-next = "2"
steamlocate = "*"
pot = "*"
uuid = { version = "1", features = ["v4", "serde"] }
open = "*"
atomic-write-file = "*"
