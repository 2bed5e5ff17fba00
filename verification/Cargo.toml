[package]
name = "packfix"
version = "0.1.0"
edition = "2021"
publish = false

[dependencies]
anyhow = "1"
bzip2 = "0.4"
clap = { version = "4", features = ["derive"] }
flate2 = "1"
form_urlencoded = "1"
nix = { version = "0.29", features = ["signal", "process"] }
ollama-rs = "0.3"
regex = "1"
reqwest = { version = "0.12", default-features = false, features = ["rustls-tls"] }
serde = { version = "1", features = ["derive"] }
serde_json = "1"
similar = "2"
tar = "0.4"
tokio = { version = "1", features = ["full"] }
toml = "0.8"
tracing = "0.1"
tracing-subscriber = { version = "0.3", features = ["env-filter"] }
xz2 = "0.1"
zip = { version = "2", default-features = false, features = ["deflate"] }
