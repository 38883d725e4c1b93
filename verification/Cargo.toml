[package]
name = "aytest1"
version = "0.1.0"
edition = "2021"
publish = false

[dependencies]
async-std = { version = "=1.13.2", features = ["attributes"] }
clap = { version = "=3.2.25", features = ["derive"] }
handlebars = { version = "=4.5.0", features = ["dir_source"] }
kamadak-exif = "=0.5.5"
serde = { version = "=1.0.229", features = ["derive"] }
serde_json = "=1.0.154"
serde_yaml = "=0.8.26"
ssh2 = "=0.9.6"
surf = { version = "=2.3.2", default-features = false, features = ["h1-client-no-tls"] }
tempfile = "=3.27.0"
tide = "=0.16.0"
tide-handlebars = "=0.9.0"
