[package]
name = "rftmle"
version = "0.1.0"
edition = "2021"
publish = false

[dependencies]
aes-gcm = "0.10"
rand = "0.9"
pgp = "0.14"
pnet = "0.35"
serde = { version = "1", features = ["derive"] }
serde_json = "1"
notify = "8"
