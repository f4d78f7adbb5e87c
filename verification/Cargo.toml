[package]
name = "shanji"
version = "0.1.0"
edition = "2021"
publish = false

[dependencies]
chrono = "0.4"
sha2 = "0.10"
hex = "0.4"
keyring = "3"
uuid = { version = "1", features = ["v4"] }
serde = { version = "1", features = ["derive"] }
serde_json = "1"
thiserror = "2"
rusqlite = { version = "*", features = ["bundled"] }
rust_xlsxwriter = "*"
zip = "*"
lettre = { version = "0.11", default-features = false, features = ["builder", "smtp-transport", "rustls-tls"] }

[dev-dependencies]
tempfile = "3"
