[package]
name = "angelsuite_installer"
version = "0.1.0"
edition = "2021"
publish = false

[dependencies]
semver = "1"
serde = { version = "1", features = ["derive"] }
serde_json = "1"
dirs = "*"
dotenvy = "*"
flate2 = "*"
tar = "*"
tempfile = "*"
zip-extract = "*"
reqwest = { version = "*", default-features = false, features = ["blocking", "rustls-tls"] }
