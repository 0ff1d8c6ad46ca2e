[package]
name = "video_share"
version = "0.1.0"
edition = "2021"
publish = false

[dependencies]
actix-files = "=0.6.10"
actix-multipart = "=0.8.5"
actix-web = "=4.18.1"
actix-web-httpauth = "=0.8.3"
anyhow = "=1.0.104"
chrono = { version = "=0.4.45", features = ["serde"] }
create-rust-app = { version = "=11.0.3", default-features = false, features = ["backend_actix-web", "database_postgres", "plugin_auth", "plugin_storage"] }
diesel = { version = "=2.2.12", features = ["postgres", "r2d2", "chrono", "uuid"] }
diesel_logger = "=0.4.0"
dotenv = "=0.15.0"
futures-util = "=0.3.34"
log = "=0.4.34"
md5 = "=0.7.0"
once_cell = "=1.21.4"
serde = { version = "=1.0.229", features = ["derive"] }
serde_json = "=1.0.154"
simple_logger = "=5.2.0"
uuid = { version = "=1.29.0", features = ["v4", "serde"] }
