[package]
name = "snakedown"
version = "0.1.0"
edition = "2021"
publish = false

[dependencies]
flate2 = "1"
url = "2"
base64 = "0.22"
rustpython-parser = "0.4"
nbformat = "*"
jupyter-protocol = "*"
clap = { version = "4", features = ["derive"] }
clap-verbosity-flag = "*"
color-eyre = "0.6"
