[package]
name = "sigil"
version = "0.1.0"
edition = "2021"
publish = false

[dependencies]
aes-gcm = "=0.10.3"
audiopus = "=0.3.0-rc.0"
futures = "0.3"
futures-util = { version = "0.3", features = ["sink"] }
hkdf = "=0.12.4"
openmls = "=0.8.3"
openmls_basic_credential = "=0.5.0"
openmls_rust_crypto = "=0.5.1"
serde = { version = "1", features = ["derive"] }
serde_json = "=1.0.154"
serenity = { version = "=0.12.5", default-features = false, features = ["client", "gateway", "model", "voice", "rustls_backend"] }
sha2 = "=0.10.9"
thiserror = "1"
tokio = { version = "1", features = ["full"] }
tokio-tungstenite = { version = "=0.21.0", features = ["rustls-tls-webpki-roots"] }
tracing = "0.1"
