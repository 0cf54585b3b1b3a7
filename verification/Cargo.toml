[package]
name = "cam_manager"
version = "0.1.0"
edition = "2021"
publish = false

[dependencies]
time = { version = "0.3", features = ["formatting", "parsing"] }
axum = "0.7"
tokio = { version = "1", features = ["full"] }
tracing = "0.1"
tracing-subscriber = { version = "0.3", features = ["env-filter"] }
serde = { version = "1", features = ["derive"] }
serde_json = "1"
rusqlite = "0.31"
reqwest = { version = "0.12", default-features = false, features = ["json"] }
jsonwebtoken = "9"
rsa = "0.9"
rand = "0.8"
base64 = "0.22"
dotenvy = "0.15"
utoipa = "4"
utoipa-scalar = { version = "0.1", features = ["axum"] }
bcrypt = "0.15"
hex = "0.4"
handlebars = "5"
once_cell = "1"
