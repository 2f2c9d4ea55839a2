[package]
name = "lifecrypt"
version = "0.1.0"
edition = "2021"
publish = false

[dependencies]
anyhow = "1"
base64 = "0.13"
mktemp = "0.4"
os_type = "2"
rand = "0.7"
rpassword = "4"
rust-crypto = "0.2"
scrypt = { version = "0.2", default-features = false }
structopt = "0.3"
subprocess = "0.2"

[dev-dependencies]
serde_json = "1"
