[package]
name = "cognito_bot"
version = "0.1.0"
edition = "2021"
publish = false
rust-version = "1.95"

[dependencies]
rand = "=0.8.8"
log = "=0.4.34"
teloxide = "=0.17.0"
takecell = "=0.1.1"
tokio = { version = "=1.53.2", features = ["macros", "rt-multi-thread", "time"] }
tokio-postgres = "=0.7.18"
