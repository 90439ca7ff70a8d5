[package]
name = "nrfxlib"
version = "0.1.0"
edition = "2021"
publish = false

[dependencies]
heapless = "=0.8.0"
nrfxlib-sys = "=1.5.1"
cortex-m = "=0.7.9"
nrf9160-pac = "=0.12.2"
