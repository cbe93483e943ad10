[package]
name = "linuxdo_accelerator"
version = "0.1.15"
edition = "2021"
publish = false

[dependencies]
anyhow = "1"
base64 = "0.22"
bytes = "1"
directories = "5"
http = "1"
http-body-util = "0.1"
hyper = { version = "1", features = ["full"] }
hyper-util = { version = "0.1", features = ["tokio", "server-auto", "http1", "http2"] }
libc = "0.2"
rcgen = "0.12"
reqwest = { version = "0.12", default-features = false, features = ["rustls-tls", "http2"] }
rustls = { version = "0.23", features = ["ring"] }
rustls-pemfile = "2"
serde = { version = "1", features = ["derive"] }
serde_json = "1"
time = "0.3"
tokio = { version = "1", features = ["full"] }
tokio-rustls = "0.26"
toml = "0.8"
