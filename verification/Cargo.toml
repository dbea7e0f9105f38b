[package]
name = "v2conv"
version = "0.1.0"
edition = "2021"
publish = false

[dependencies]
uuid = { version = "*", features = ["v5"] }
base64 = "*"
image = { version = "*", default-features = false, features = ["png", "jpeg"] }
serde = { version = "*", features = ["derive"] }
serde_json = "*"
clap = "*"
reqwest = { version = "*", default-features = false, features = ["blocking", "rustls-tls"] }
