[package]
name = "cuaca"
version = "0.2.6"
edition = "2021"
publish = false

[dependencies]
chrono = { version = "0.4", features = ["unstable-locales"] }
clap = { version = "4", features = ["derive"] }
directories = "6"
quick-xml = { version = "0.37", features = ["serialize"] }
reqwest = { version = "0.12", default-features = false, features = ["blocking", "json", "rustls-tls"] }
serde = { version = "1", features = ["derive"] }
serde_json = "1"
signal-hook = "0.3"
thiserror = "2"
