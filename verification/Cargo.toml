[package]
name = "qzone_sync"
version = "0.1.0"
edition = "2021"
publish = false

[dependencies]
base64 = "=0.22.1"
sha2 = "=0.10.9"
hkdf = "=0.12.4"
x25519-dalek = { version = "=2.0.1", features = ["static_secrets"] }
chacha20poly1305 = "=0.10.1"
rand_core = { version = "=0.6.4", features = ["getrandom"] }
url = "=2.5.8"
uuid = { version = "=1.29.0", features = ["v4", "serde"] }
serde = { version = "=1.0.229", features = ["derive"] }
serde_json = "=1.0.154"
subtle = "=2.6.1"
chrono = { version = "=0.4.45", default-features = false, features = ["clock", "std", "serde"] }
reqwest = { version = "=0.12.28", default-features = false, features = ["json", "rustls-tls"] }
axum = "=0.8.9"
sqlx = { version = "=0.8.6", default-features = false, features = ["postgres", "runtime-tokio", "uuid", "chrono", "derive", "migrate"] }
tokio = { version = "=1.54.1", features = ["macros", "rt-multi-thread", "net"] }
tracing = "=0.1.44"
tracing-subscriber = { version = "=0.3.23", features = ["env-filter", "fmt"] }
dotenvy = "=0.15.7"
keyring = "=3.6.3"
