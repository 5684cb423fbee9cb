[package]
name = "clean_links"
version = "0.1.0"
edition = "2021"
publish = false

[dependencies]
fancy-regex = "=0.20.0"
form_urlencoded = "=1.2.2"
url = "=2.5.8"
image = { version = "=0.25.10", default-features = false, features = ["png", "jpeg", "gif", "webp", "bmp"] }
qrcode = "=0.14.1"
rqrr = "=0.11.0"
anyhow = "1"
clap = { version = "4", features = ["derive"] }
clap-verbosity-flag = "3"
frankenstein = { version = "=0.40.0", features = ["client-reqwest"] }
log = "0.4"
log4rs = "1"
once_cell = "1"
serde = { version = "1", features = ["derive"] }
tempfile = "3"
tokio = { version = "1", features = ["rt", "macros", "time"] }
toml = "1"
v_htmlescape = "0.17"
