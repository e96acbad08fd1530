[package]
name = "politocean_backend"
version = "0.1.0"
edition = "2021"
publish = false

[dependencies]
askama = "=0.12.1"
axum = { version = "=0.7.9", features = ["multipart"] }
base64 = "=0.22.1"
bcrypt = "=0.15.1"
dotenvy = "=0.15.7"
futures = "=0.3.34"
lettre = { version = "=0.11.23", default-features = false, features = ["builder", "smtp-transport", "tokio1", "tokio1-rustls-tls"] }
once_cell = "=1.21.4"
percent-encoding = "=2.3.2"
rand = "=0.8.8"
reqwest = { version = "=0.12.28", default-features = false, features = ["json", "rustls-tls"] }
serde = { version = "=1.0.229", features = ["derive"] }
serde_json = "=1.0.154"
serde_path_to_error = "=0.1.20"
sqlx = { version = "=0.8.6", default-features = false, features = ["postgres", "runtime-tokio", "time", "derive", "migrate"] }
thiserror = "=1.0.69"
time = { version = "=0.3.55", features = ["formatting", "parsing"] }
tokio = { version = "=1.54.1", features = ["rt-multi-thread", "macros", "sync", "time", "net"] }
tower-http = { version = "=0.6.11", features = ["fs"] }
tower-sessions = "=0.13.0"
tower-sessions-sqlx-store = { version = "=0.14.2", features = ["postgres"] }
umya-spreadsheet = "=2.3.3"
validator = { version = "=0.18.1", features = ["derive"] }
zip = { version = "=0.6.6", default-features = false, features = ["deflate"] }
