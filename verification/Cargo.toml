[package]
name = "myhelper_core"
version = "0.1.0"
edition = "2021"
publish = false

[dependencies]
zip = "*"
serde_json = "*"
rusqlite = { version = "*", features = ["bundled"] }
directories = "*"
reqwest = { version = "*", default-features = false, features = ["blocking", "rustls-tls"] }
