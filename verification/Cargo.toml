[package]
name = "fft_column"
version = "0.1.0"
edition = "2021"
publish = false

[dependencies]
realfft = "3"
