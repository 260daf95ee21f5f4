[package]
name = "dex"
version = "0.1.0"
edition = "2021"
publish = false

[dependencies]
bzip2 = "0.4"
clap = { version = "4", features = ["derive"] }
flate2 = "1"
indicatif = "0.17"
reqwest = { version = "0.12", default-features = false, features = ["blocking", "rustls-tls"] }
serde = { version = "1", features = ["derive"] }
serde_json = "1"
tar = "0.4"
xz2 = "0.1"
zip = { version = "2", default-features = false, features = ["deflate"] }
zstd = "0.13"
