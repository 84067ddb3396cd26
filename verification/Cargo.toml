[package]
name = "autotabber"
version = "0.1.0"
edition = "2021"
publish = false

[dependencies]
clap = { version = "=4.6.7", features = ["derive"] }
cpal = "=0.18.2"
hound = "=3.5.1"

[dev-dependencies]
find_peaks = "*"
realfft = "=3.5.0"
