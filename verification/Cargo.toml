[package]
name = "template_functions"
version = "0.1.0"
edition = "2021"
publish = false

[dependencies]
camino = "1"
minijinja = "1.0"
serde_json = "1"
serde_urlencoded = "0.7"
url = "2"
