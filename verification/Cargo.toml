[package]
name = "runx"
version = "0.1.0"
edition = "2021"
publish = false

[dependencies]
semver = "1"
serde = { version = "1", features = ["derive"] }
serde_json = "1"
toml = "0.8"
clap = { version = "4", features = ["derive"] }
clap_complete = "4"
ctrlc = "3"
dirs = "6"
flate2 = "1"
futures-util = "0.3"
indicatif = "0.17"
libc = "0.2"
reqwest = { version = "0.12", default-features = false, features = ["blocking", "stream", "rustls-tls"] }
sha2 = "0.10"
tar = "0.4"
tempfile = "3"
tokio = { version = "1", features = ["full"] }
zip = { version = "2", default-features = false, features = ["deflate"] }
