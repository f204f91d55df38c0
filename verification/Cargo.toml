[package]
name = "cipherstore"
version = "0.1.0"
edition = "2021"
publish = false

[dependencies]
aes-gcm = "=0.10.3"
uuid = { version = "=1.27.0", features = ["v4"] }
serde = { version = "=1.0.229", features = ["derive"] }
actix-web = "=4.15.0"
actix-multipart = "=0.6.2"
futures-util = "=0.3.34"
