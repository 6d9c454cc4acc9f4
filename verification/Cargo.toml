[package]
name = "docr"
version = "0.1.0"
edition = "2021"
publish = false

[dependencies]
serde_json = "*"
image = "*"
clap = "*"
libc = "*"
widestring = "*"
pyo3 = "*"
windows = { version = "*", features = ["Foundation", "Foundation_Collections", "Globalization", "Graphics_Imaging", "Media_Ocr", "Security_Cryptography", "Storage_Streams"] }
