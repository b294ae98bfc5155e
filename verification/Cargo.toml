[package]
name = "funnel"
version = "0.1.0"
edition = "2021"
publish = false

[dependencies]
anyhow = "=1.0.104"
axum = "=0.8.9"
base64 = "=0.22.1"
chrono = { version = "=0.4.45", default-features = false, features = ["clock", "std"] }
clap = { version = "=4.6.7", features = ["derive"] }
config = { version = "=0.15.27", default-features = false, features = ["toml"] }
console = "=0.15.11"
dirs = "=7.0.0"
futures-util = "=0.3.34"
getrandom = "=0.3.4"
hex = "=0.4.3"
http = "=1.5.0"
http-body-util = "=0.1.5"
hyper = { version = "=1.12.0", features = ["client", "http1"] }
hyper-util = { version = "=0.1.21", features = ["tokio"] }
indicatif = "=0.17.11"
nanoid = "=0.4.0"
quinn = "=0.11.12"
reqwest = { version = "=0.12.28", default-features = false, features = ["json", "rustls-tls"] }
rmp-serde = "1"
rustls = "=0.23.46"
serde = { version = "=1.0.229", features = ["derive"] }
serde_json = "=1.0.154"
sha2 = "=0.10.9"
tokio = { version = "=1.54.1", features = ["rt-multi-thread", "macros", "net", "io-util", "time", "signal", "sync"] }
tokio-util = "=0.7.20"
toml = "=1.1.8"
url = "=2.5.8"
uuid = { version = "=1.29.0", features = ["v7"] }
webpki-roots = "0.26"
