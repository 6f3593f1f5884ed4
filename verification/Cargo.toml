[package]
name = "nitpanel"
version = "2.4.1"
edition = "2021"
publish = false

[dependencies]
actix-web = "4"
actix-multipart = "0.6"
bcrypt = "0.15"
chrono = "0.4"
futures-util = "0.3"
jsonwebtoken = "9"
rand = "0.8"
reqwest = { version = "0.12", default-features = false, features = ["json", "rustls-tls"] }
serde = { version = "1", features = ["derive"] }
serde_json = "1"
tokio = { version = "1", features = ["full"] }
tracing = "0.1"
tracing-subscriber = { version = "0.3", features = ["env-filter"] }
uuid = { version = "1", features = ["v4"] }
