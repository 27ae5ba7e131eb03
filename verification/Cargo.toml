[package]
name = "statuspage"
version = "0.1.0"
edition = "2021"
publish = false

[dependencies]
actix-web = "=4.15.0"
chrono = "=0.4.45"
clap = { version = "=4.6.7", features = ["derive"] }
deadpool-postgres = "=0.14.2"
dotenv = "=0.15.0"
lazy_static = "=1.5.1"
moka = { version = "=0.12.16", features = ["future"] }
serde = { version = "=1.0.229", features = ["derive"] }
serde_json = "=1.0.151"
tera = "=1.20.1"
tokio = { version = "=1.53.2", features = ["macros", "rt-multi-thread"] }
tokio-postgres = { version = "=0.7.18", features = ["with-chrono-0_4"] }
