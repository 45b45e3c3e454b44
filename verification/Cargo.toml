[package]
name = "light_letter"
version = "0.1.0"
edition = "2021"
publish = false

[dependencies]
base64 = "0.22"
bytes = "1"
chrono = "0.4"
diesel = { version = "2", features = ["postgres", "r2d2"] }
diesel_migrations = "2"
env_logger = "*"
flate2 = "1"
fs_extra = "1"
futures = "0.3"
hyper = { version = "0.14", features = ["server", "http1", "tcp", "stream"] }
log = "0.4"
mime_guess = "2"
rand = "0.8"
regex = "1"
serde = { version = "1", features = ["derive"] }
serde_json = "1"
serde_urlencoded = "0.7"
sha2 = "0.10"
tokio = { version = "1", features = ["rt-multi-thread", "fs", "sync", "macros", "io-util"] }
toml = "0.8"
url = "2"
uuid = { version = "1", features = ["v4"] }
validator = "*"
