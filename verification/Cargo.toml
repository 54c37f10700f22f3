[package]
name = "litebag"
version = "0.1.0"
edition = "2021"
publish = false

[dependencies]
bitcoin = "0.32"
bip39 = "2"
bcrypt = "0.16"
rand = "0.8"
rusqlite = { version = "0.31", features = ["bundled"] }
reqwest = { version = "0.11", default-features = false, features = ["json", "rustls-tls"] }
tokio = { version = "1", features = ["rt-multi-thread", "time", "macros"] }
serde = { version = "1", features = ["derive"] }
dirs-next = "2"
gtk4 = { version = "0.7", features = ["v4_12"] }
glib = "0.18"
