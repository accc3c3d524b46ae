[package]
name = "gemini_client"
version = "0.1.0"
edition = "2021"
publish = false

[dependencies]
anyhow = "1"
rustls = { version = "0.19", features = ["dangerous_configuration"] }
structopt = "0.3"
thiserror = "1"
url = "2"
webpki = "0.21"
webpki-roots = "0.21"
