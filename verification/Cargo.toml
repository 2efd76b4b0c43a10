[package]
name = "ascending_login"
version = "0.1.0"
edition = "2021"
publish = false

[dependencies]
argon2 = "=0.5.3"
bytey_byte_buffer = "=0.3.0"
chrono = "=0.4.45"
jsonwebtoken = "=9.3.1"
log = "=0.4.34"
mio = { version = "=0.8.11", features = ["os-poll", "net"] }
mmap_bytey_byte_buffer = "=0.2.2"
password-hash = "=0.5.0"
rand = "=0.8.8"
regex = "=1.13.1"
rustls = { version = "=0.23.46", default-features = false, features = ["ring", "std", "tls12", "logging"] }
rustls-pemfile = "=2.2.0"
serde = { version = "=1.0.229", features = ["derive"] }
serde_json = "=1.0.154"
sqlx = { version = "=0.8.6", default-features = false, features = ["postgres", "runtime-tokio", "derive"] }
thiserror = "=1.0.69"
tokio = { version = "=1.54.1", features = ["rt-multi-thread", "macros", "sync", "time"] }
toml = "=0.8.23"
