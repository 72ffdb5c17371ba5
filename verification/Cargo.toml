[package]
name = "spotify_backup"
version = "0.1.0"
edition = "2021"
publish = false

[dependencies]
actix-files = "=0.2.2"
actix-rt = "=1.1.1"
actix-web = "=2.0.0"
failure = "=0.1.8"
log = "=0.4.34"
pretty_env_logger = "=0.4.0"
r2d2 = "=0.8.10"
r2d2_sqlite = "=0.14.0"
rspotify = { version = "=0.9.0", features = ["blocking"] }
rusqlite = { version = "=0.21.0", features = ["functions"] }
serde = { version = "=1.0.229", features = ["derive"] }
serde_json = "=1.0.154"
tera = "=1.20.1"
time = "=0.1.45"
toml = "=0.5.11"
uuid = { version = "=0.8.2", features = ["v4"] }
