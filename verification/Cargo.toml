[package]
name = "bochumoxide"
version = "0.1.0"
edition = "2021"
publish = false

[dependencies]
anyhow = "=1.0.104"
base64 = "=0.13.1"
byteorder = "=1.5.0"
goblin = "=0.4.3"
hex = "=0.4.3"
iced = "=0.3.0"
iced_graphics = "=0.2.0"
iced_native = "=0.4.0"
log = "=0.4.34"
pest = "=2.9.4"
pest_derive = "=2.9.4"
regex = "=1.13.1"
serde = { version = "=1.0.229", features = ["derive"] }
serde_json = "=1.0.154"
simplelog = "=0.10.2"
timeout-readwrite = "=0.3.3"
which = "=4.4.2"
