[package]
name = "loopback_oauth"
version = "0.1.0"
edition = "2021"
publish = false

[dependencies]
getrandom = "*"
sha2 = "*"
rouille = "*"
open = "*"
dotenvy = "*"
serde_json = "*"

[dependencies.reqwest]
version = "*"
default-features = false
features = ["blocking", "rustls-tls"]
