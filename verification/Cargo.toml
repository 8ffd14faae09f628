[package]
name = "alphatheta_connect"
version = "0.1.0"
edition = "2021"
publish = false

[dependencies]
flate2 = "=1.1.10"
sha2 = "=0.11.1"
chrono = "=0.4.45"
rand = "=0.10.3"
tracing = "=0.1.44"
serde = { version = "=1.0.229", features = ["derive"] }
thiserror = "=2.0.21"
rusqlite = { version = "*", features = ["bundled-sqlcipher-vendored-openssl"] }
