[package]
name = "nightbar"
version = "0.1.0"
edition = "2021"
publish = false

[dependencies]
chrono = "0.4"
serde_json = "1"
glib = "*"
gtk4 = "*"
gtk4-layer-shell = "*"
