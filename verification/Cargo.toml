[package]
name = "kintai"
version = "0.1.0"
edition = "2021"
publish = false

[dependencies]
bcrypt = "=0.19.3"
jsonwebtoken = { version = "=11.1.0", features = ["rust_crypto"] }
serde_json = "=1.0.151"
passwords = "=3.1.18"
serde = { version = "=1.0.229", features = ["derive"] }
chrono = { version = "=0.4.45", features = ["serde"] }
dotenv = "=0.15.0"
qstring = "=0.7.2"
actix-web = "=4.15.0"
actix-files = "=0.7.0"
