[package]
name = "imgup"
version = "0.1.0"
edition = "2021"
publish = false

[dependencies]
image = "=0.25.10"
actix-web = { version = "=4.15.0", default-features = false, features = ["macros"] }
actix-cors = "=0.7.2"
futures = "*"

[dev-dependencies]
serde_json = "=1.0.151"
