[package]
name = "automated_invoice_uploader"
version = "0.1.0"
edition = "2021"
publish = false

[dependencies]
base64 = "0.22"
crossterm = "0.28"
directories = "6"
ratatui = { version = "0.29", features = ["widget-calendar"] }
serde = { version = "1", features = ["derive"] }
serde_json = "1"
time = { version = "0.3", features = ["local-offset"] }
