[package]
name = "puid"
version = "0.1.0"
edition = "2021"
publish = false

[dependencies]
base62 = "*"
rand = "*"
serde = "*"
sqlx = { version = "*", default-features = false, features = ["postgres"] }
thiserror = "*"
