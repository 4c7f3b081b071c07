[package]
name = "oci-sniper-rs"
version = "0.1.0"
edition = "2021"
publish = false

[dependencies]
anyhow = "=1.0.104"
base64 = "=0.22.1"
chrono = "=0.4.45"
clap = { version = "=4.6.7", features = ["derive"] }
dirs = "=5.0.1"
fs2 = "=0.4.3"
reqwest = { version = "=0.12.28", default-features = false, features = ["json", "rustls-tls"] }
rsa = "=0.9.10"
serde = { version = "=1.0.229", features = ["derive"] }
serde_json = "=1.0.154"
sha2 = { version = "=0.10.9", features = ["oid"] }
takecell = "=0.1.1"
teloxide = { version = "=0.13.0", default-features = false, features = ["rustls", "ctrlc_handler"] }
tokio = { version = "=1.54.1", features = ["macros", "rt-multi-thread"] }
toml = "=0.8.23"
tracing = "=0.1.44"
tracing-appender = "=0.2.5"
tracing-subscriber = { version = "=0.3.23", features = ["env-filter"] }
url = "=2.5.8"
zip = { version = "=2.6.1", default-features = false, features = ["deflate"] }

[dev-dependencies]
rand = "=0.8.8"
