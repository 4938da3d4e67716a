[package]
name = "secure-database"
version = "0.1.0"
edition = "2021"
publish = false

[dependencies]
anyhow = "1"
arc-swap = "1"
base64 = "0.22"
chrono = "0.4"
clap = { version = "4.5", default-features = false, features = ["std", "derive", "help", "usage", "error-context"] }
dcap-qvl = "0.3"
ff = "0.13"
halo2_proofs = "0.3"
hex = "0.4"
hmac = "0.12"
hyper-util = { version = "0.1", features = ["tokio"] }
rand = "0.8"
ring = "0.17"
rustls = "0.23"
rustls-pemfile = "2"
serde = { version = "1", features = ["derive"] }
serde_json = "1"
sha2 = "0.10"
sqlx = { version = "0.8", default-features = false, features = ["runtime-tokio", "tls-rustls", "postgres", "uuid", "chrono", "json", "migrate"] }
tokio = { version = "1", features = ["rt-multi-thread", "macros", "net", "time", "sync"] }
tokio-rustls = "0.26"
tonic = { version = "0.12", features = ["tls", "tls-roots"] }
tower = { version = "0.5", features = ["util"] }
tracing = "0.1"
tracing-subscriber = { version = "0.3", default-features = false, features = ["fmt"] }
url = "2"
uuid = { version = "1", features = ["v4"] }
x509-parser = "0.16"
yasna = "0.5"
zeroize = "1"
