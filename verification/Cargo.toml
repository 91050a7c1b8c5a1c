[package]
name = "hpas"
version = "0.1.0"
edition = "2021"
publish = false

[dependencies]
base64 = "0.22"
jsonwebtoken = "9"
ldap3 = "0.11"
openssl = "0.10"
rand = "0.8"
reqwest = { version = "0.12", features = ["blocking", "json"] }
scrypt = "*"
serde = { version = "1", features = ["derive"] }
serde_json = "1"
toml = "*"
url = "2"
