[package]
name = "progressor_sonify"
version = "0.1.0"
edition = "2021"
publish = false

[dependencies]
btleplug = "0.11"
cpal = "0.15"
futures-lite = "2"
tokio = { version = "1", features = ["macros", "rt-multi-thread"] }
uuid = "1"
