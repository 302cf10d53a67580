[package]
name = "toodoux"
version = "0.4.0"
edition = "2021"
publish = false

[dependencies]
chrono = { version = "0.4", features = ["serde"] }
colored = "2.0"
dirs = "3.0"
env_logger = "0.8"
itertools = "0.10"
log = "0.4"
pulldown-cmark = { version = "0.8", default-features = false }
serde = { version = "1.0", features = ["derive"] }
serde_json = "1.0"
structopt = "0.3"
tempdir = "0.3"
term_size = "0.3"
toml = "0.5"
unicase = "2.6"
unicode-width = "=0.1.8"
