[package]
name = "central_manage"
version = "0.1.0"
edition = "2021"
publish = false

[dependencies]
actix-web = { version = "4", default-features = false, features = ["macros"] }
actix-cors = "0.7"
clap = "2.34"
deadpool-postgres = "0.14"
tokio-postgres = { version = "0.7", features = ["with-serde_json-1"] }
tokio = { version = "1", features = ["fs", "io-util", "rt", "macros"] }
serde = { version = "1", features = ["derive"] }
serde_json = "1"
log = "0.4"
simple_logger = "1.16"
chrono = "0.4"
rand = "0.7"
hex = "0.4"
