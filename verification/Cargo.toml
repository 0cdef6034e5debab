[package]
name = "board"
version = "0.1.0"
edition = "2021"
publish = false

[dependencies]
actix = "=0.10.0"
actix-files = "=0.4.1"
actix-identity = "=0.3.1"
actix-multipart = "=0.3.0"
actix-rt = "=1.1.1"
actix-service = "=1.0.6"
actix-web = "=3.3.3"
actix-web-actors = "=3.0.0"
env_logger = "=0.8.4"
futures = "=0.3.34"
handlebars = { version = "=3.5.5", features = ["dir_source"] }
mime = "=0.3.17"
rand = "=0.7.3"
sanitize-filename = "=0.3.0"
serde = { version = "=1.0.229", features = ["derive"] }
serde_json = "=1.0.154"
time = "=0.2.27"
