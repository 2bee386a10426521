[package]
name = "envstation"
version = "0.1.0"
edition = "2021"
publish = false

[dependencies]
anyhow = "1"
ds18b20 = "0.1"
embedded-svc = "*"
esp-idf-hal = "*"
esp-idf-svc = "*"
esp-idf-sys = "*"
log = "0.4"
minreq = "2"
one-wire-bus = "0.1"
serde = { version = "1", features = ["derive"] }
serde_json = "1"
