[package]
name = "tracker_db"
version = "0.1.0"
edition = "2021"
publish = false

[dependencies]
hex = "0.4"
sqlx = { version = "0.6", features = ["mysql", "postgres", "sqlite", "runtime-tokio-rustls"] }
futures = "0.3"
log = "0.4"
scc = "2"
serde = { version = "1", features = ["derive"] }
