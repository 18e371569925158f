[package]
name = "i2c_lcd"
version = "0.1.0"
edition = "2021"
publish = false

[dependencies]
cortex-m = "*"
cortex-m-rt = "*"
tm4c129x = "*"
