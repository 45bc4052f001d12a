[package]
name = "cqlib-tianyan"
version = "0.1.0"
edition = "2021"
publish = false

[dependencies]
cqlib-core = { version = "=0.1.0-beta.7", default-features = false }
dirs = "6"
reqwest = { version = "0.12", default-features = false, features = ["blocking", "json", "rustls-tls"] }
serde = { version = "1", features = ["derive"] }
serde_json = "1"
url = "=2.5.2"
time = { version = "0.3", default-features = false, features = ["std", "parsing"] }

[dev-dependencies]
tempfile = "3"
