[package]
name = "asoby"
version = "0.1.0"
edition = "2021"
publish = false

[dependencies]
base64 = "=0.22.1"
chrono = "=0.4.45"
clap = { version = "=4.6.7", features = ["derive"] }
cpal = "*"
crossterm = "=0.28.1"
ctrlc = "=3.5.2"
dirs = "=5.0.1"
flate2 = "=1.1.10"
gilrs = "=0.11.2"
image = { version = "=0.25.10", default-features = false }
libc = "=0.2.191"
libloading = "=0.8.9"
ringbuf = "0.4"
serde = { version = "=1.0.229", features = ["derive"] }
shell-words = "=1.1.1"
tempfile = "=3.27.0"
toml = "=0.8.23"
toml_edit = "=0.22.27"
ureq = "=3.5.1"
zip = { version = "=2.6.1", default-features = false, features = ["deflate"] }
