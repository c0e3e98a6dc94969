[package]
name = "buoy"
version = "0.1.0"
edition = "2021"
publish = false

[dependencies]
fuzzy-matcher = "0.3"
rand = "0.9"
itertools = "*"
gettext-rs = "0.7"
url = "2"
chrono = "0.4"
serde = { version = "1", features = ["derive"] }
postcard = { version = "1", features = ["use-std"] }
xdg = "2"
submarine = "*"
