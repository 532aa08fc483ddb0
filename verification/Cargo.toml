[package]
name = "howto"
version = "0.1.0"
edition = "2021"
publish = false

[dependencies]
scraper = "*"
surf = "*"
tokio = { version = "*", features = ["macros", "rt-multi-thread"] }
structopt = "*"
futures = "*"
openssl-probe = "*"
