[package]
name = "correspondchess"
version = "0.1.0"
edition = "2021"
publish = false

[dependencies]
shakmaty = "=0.27.3"
harsh = "=0.2.2"
rand = "=0.7.3"
serde = { version = "=1.0.229", features = ["derive"] }
serde_json = "=1.0.154"
actix = "=0.10.0"
actix-web = "=3.3.3"
actix-web-actors = "=3.0.0"
actix-files = "=0.4.1"
actix-rt = "=1.1.1"
diesel = { version = "=1.4.8", features = ["sqlite", "r2d2"] }
chrono = "=0.4.45"
dotenv = "=0.15.0"
env_logger = "=0.8.4"
