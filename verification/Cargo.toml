[package]
name = "lens"
version = "0.1.0"
edition = "2021"
publish = false

[dependencies]
anyhow = "1"
axum = "0.6"
clap = { version = "4", features = ["derive"] }
flate2 = "1"
form_urlencoded = "1"
futures-util = "0.3"
getrandom = "0.2"
indexmap = "2"
libc = "0.2"
percent-encoding = "2"
pulldown-cmark = { version = "0.9", default-features = false }
reqwest = { version = "0.11", default-features = false, features = ["rustls-tls", "stream"] }
serde = { version = "1", features = ["derive"] }
serde_json = "1"
serde_yaml = "0.9"
thiserror = "1"
tokio = { version = "1", features = ["full"] }
windows-sys = { version = "0.52", features = ["Win32_Foundation", "Win32_Security", "Win32_Security_Authorization", "Win32_System_Threading"] }
