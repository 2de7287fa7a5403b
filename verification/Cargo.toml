[package]
name = "workbook"
version = "0.1.0"
edition = "2021"
publish = false

[dependencies]
futures = "*"
tokio = { version = "*", features = ["full"] }
tokio-stream = "*"
trpl = "*"
