[package]
name = "zksvm"
version = "0.1.0"
edition = "2021"
publish = false

[dependencies]
anyhow = "=1.0.104"
clap = { version = "=4.6.7", features = ["derive"] }
const-hex = "=1.19.3"
dialoguer = "=0.12.0"
fs4 = "=1.1.0"
reqwest = { version = "=0.12.28", default-features = false, features = ["json", "rustls-tls"] }
semver = "=1.0.28"
serde = { version = "=1.0.229", features = ["derive"] }
sha2 = "=0.10.9"
tokio = { version = "=1.54.1", features = ["macros", "rt-multi-thread"] }
url = "=2.5.8"
zip = { version = "=9.1.0", default-features = false, features = ["deflate"] }

[dev-dependencies]
serde_json = "=1.0.154"
