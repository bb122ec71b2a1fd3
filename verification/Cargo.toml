[package]
name = "wiim_display"
version = "0.1.0"
edition = "2021"
publish = false

[dependencies]
anyhow = "1"
log = "0.4"
hex = "0.4"
serde = { version = "1", features = ["derive"] }
serde_json = "1"
embedded-svc = "0.25"
esp-idf-svc = "0.46"
esp-idf-hal = "0.41"
esp-idf-sys = { version = "0.33", features = ["binstart"] }
embedded-graphics = "0.8"
mipidsi = "0.7"
display-interface-parallel-gpio = "0.6"
profont = "0.7"
