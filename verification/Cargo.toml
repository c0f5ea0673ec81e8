[package]
name = "lightbox"
version = "0.1.0"
edition = "2021"
publish = false

[dependencies]
anyhow = "=1.0.104"
bytes = "=0.4.12"
mpd = "=0.1.0"
opc = "=0.3.0"
rgb = "=0.8.53"
sysfs_gpio = "=0.6.2"
tokio-io = "=0.1.13"
