[package]
name = "authz_core"
version = "0.1.0"
edition = "2021"
publish = false

[dependencies]
actix-web = { version = "=4.18.1", default-features = false }
argon2 = { version = "=0.5.3", features = ["std"] }
bson = "=3.1.0"
chrono = { version = "=0.4.45", features = ["serde"] }
lettre = { version = "=0.11.23", default-features = false, features = ["builder", "smtp-transport", "tokio1", "pool", "tokio1-rustls-tls"] }
ring = "=0.17.14"
rusty_paseto = "=0.10.1"
serde = { version = "=1.0.229", features = ["derive"] }
serde_json = "=1.0.154"
thiserror = "=2.0.21"
tokio = { version = "=1.54.1", features = ["rt", "rt-multi-thread", "sync"] }
