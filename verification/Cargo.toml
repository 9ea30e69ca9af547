[package]
name = "navign"
version = "0.1.0"
edition = "2021"
publish = false

[dependencies]
sha2 = "0.10"
p256 = { version = "0.13", features = ["ecdsa", "pkcs8", "pem"] }
base64 = "0.22"
postcard = { version = "1", features = ["alloc"] }
serde = { version = "1", features = ["derive"] }
serde_json = "1"
serde-big-array = "0.5"
uuid = "1"
anyhow = "1"
rand = "0.8"
chrono = "0.4"
nanoid = "0.4"
aes-gcm = "0.10"
rsa = "0.9"
wkt = "*"
geo = "*"
earcutr = "*"
