[package]
name = "tm4c_hal"
version = "0.1.0"
edition = "2021"
publish = false

[dependencies]
cortex-m = "0.7"
embedded-hal = "0.2"
nb = "0.1"
cast = "0.3"
