[package]
name = "fzt"
version = "0.1.0"
edition = "2021"
publish = false

[dependencies]
strip-ansi-escapes = "=0.2.1"
regex = "=1.13.1"
rustpython-parser = "=0.3.1"
rustpython-parser-core = "=0.3.1"
colored = "=2.2.0"
sha2 = "=0.10.9"
serde = { version = "=1.0.229", features = ["derive"] }
serde_json = "=1.0.154"
home = "=0.5.12"
tabled = "=0.22.0"
walkdir = "=2.5.0"
crossbeam-channel = "=0.5.17"
tempfile = "=3.27.0"
clap = { version = "=4.6.7", features = ["derive"] }
syn = "=2.0.119"
