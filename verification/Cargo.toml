[package]
name = "smith_chart"
version = "0.1.0"
edition = "2021"
publish = false

[dependencies]
num = "0.4"
egui = { version = "0.21", default-features = false }
