[package]
name = "droid_chatter"
version = "0.1.0"
edition = "2021"
publish = false

[dependencies]
hound = "3.5"
walkdir = "2"
rodio = { version = "0.19", default-features = false, features = ["wav"] }
reqwest = { version = "0.12", default-features = false, features = ["blocking", "rustls-tls"] }
tar = "0.4"
flate2 = "1"
thiserror = "1"

[dev-dependencies]
tempfile = "3"
