[package]
name = "scope_waveform"
version = "0.1.0"
edition = "2021"
publish = false

[dependencies]
anyhow = "1"
byteorder = "1"
env_logger = "*"
log = "0.4"
plotters = "0.3"
visa-rs = "*"
