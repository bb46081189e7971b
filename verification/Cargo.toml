[package]
name = "laskugeneraattori"
version = "0.1.0"
edition = "2021"
publish = false

[dependencies]
bank-barcode = "=0.2.0"
lopdf = { version = "=0.45.0", default-features = false }
serde = { version = "=1.0.229", features = ["derive"] }
serde_json = "=1.0.151"
time = "=0.3.55"
typst = "=0.13.1"
typst-assets = { version = "=0.13.1", features = ["fonts"] }
typst-pdf = "=0.13.1"
