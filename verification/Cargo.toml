[package]
name = "p2pchat"
version = "0.1.0"
edition = "2021"
publish = false

[dependencies]
anyhow = "=1.0.104"
argon2 = "=0.5.3"
chacha20poly1305 = "=0.10.1"
chrono = { version = "=0.4.45", default-features = false, features = ["std", "now"] }
ed25519-dalek = { version = "=2.2.0", features = ["rand_core"] }
hex = "=0.4.3"
hkdf = "=0.12.4"
hmac = "=0.12.1"
iroh = { version = "=0.98.2", default-features = false, features = ["tls-ring"] }
postcard = { version = "=1.1.3", default-features = false, features = ["use-std"] }
qrcode = { version = "=0.14.1", default-features = false }
rand_core = { version = "=0.6.4", features = ["getrandom"] }
rpassword = "7"
serde = { version = "1", features = ["derive"] }
sha2 = "=0.10.9"
snow = "=0.9.6"
thiserror = "2"
tokio = { version = "1", features = ["rt", "macros", "io-util", "io-std", "sync", "time", "fs", "net"] }
tracing = "0.1"
tracing-subscriber = { version = "0.3", default-features = false, features = ["env-filter", "fmt"] }
uuid = { version = "=1.29.0", features = ["v4"] }
x25519-dalek = { version = "=2.0.1", features = ["static_secrets"] }
zeroize = "=1.9.1"
