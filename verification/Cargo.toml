[package]
name = "handy_enhance"
version = "0.1.0"
edition = "2021"
publish = false

[dependencies]
serde = { version = "1", features = ["derive"] }
serde_json = "1"
anyhow = "1"
log = "0.4"
llama-cpp-2 = "*"
hf-hub = { version = "*", default-features = false, features = ["tokio", "rustls-tls"] }
