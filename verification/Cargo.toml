[package]
name = "nibble"
version = "0.1.0"
edition = "2021"
publish = false

[dependencies]
kdl = "*"
anyhow = "*"
clap = { version = "4", features = ["derive"] }
dirs = "*"
flate2 = "*"
tar = "*"
reqwest = { version = "0.12", default-features = false, features = ["blocking", "json", "rustls-tls"] }
serde = { version = "1", features = ["derive"] }
mysz-core = "*"
