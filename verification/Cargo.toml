[package]
name = "ticker_data"
version = "0.1.0"
edition = "2021"
publish = false

[dependencies]
actix-web = "=4.18.1"
yahoo-finance = "=0.2.0"
