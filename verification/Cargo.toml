[package]
name = "findit"
version = "0.1.0"
edition = "2021"
publish = false

[dependencies]
sha2 = "0.10"
hex = "0.4"
base64 = "0.22"
url = "2"
rand = "0.8"
axum = "0.8"
axum-extra = { version = "0.10", features = ["cookie-private"] }
cookie = "0.18"
tokio = { version = "1", features = ["full"] }
sqlx = { version = "0.8", default-features = false, features = ["runtime-tokio", "sqlite"] }
bollard = "0.19"
reqwest = { version = "0.12", default-features = false, features = ["rustls-tls"] }
serde = { version = "1", features = ["derive"] }
serde_json = "1"
dotenvy = "0.15"
envy = "0.4"
openidconnect = "4"
tower-http = { version = "0.6", features = ["fs"] }
