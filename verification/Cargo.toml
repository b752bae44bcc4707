[package]
name = "go_modules"
version = "0.1.0"
edition = "2021"
publish = false

[dependencies]
ctrlc = "3"
futures = "0.3"
gpio-cdev = { version = "*", features = ["async-tokio"] }
indicatif = "0.17"
inquire = "*"
spidev = "*"
tokio = { version = "1", features = ["rt-multi-thread", "macros", "time"] }
