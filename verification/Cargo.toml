[package]
name = "jil_im"
version = "0.1.0"
edition = "2021"
publish = false

[dependencies]
anyhow = "1"
askama = "0.12"
axum = "0.7"
bcrypt = "0.15"
chrono = { version = "0.4", features = ["serde"] }
dotenv = "0.15"
golink = "*"
hyper = "1"
rand = "0.8"
reqwest = { version = "0.12", default-features = false, features = ["json"] }
serde = { version = "1", features = ["derive"] }
serde_json = "1"
strum = { version = "0.26", features = ["derive"] }
timeago = "0.4"
tokio = { version = "1", features = ["macros", "rt-multi-thread", "sync", "net"] }
tower = "0.4"
tower-http = { version = "0.5", features = ["fs"] }
tower-sessions = "0.12"
