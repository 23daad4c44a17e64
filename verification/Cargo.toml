[package]
name = "bbr"
version = "0.1.0"
edition = "2021"
publish = false

[dependencies]
cortex-m = "0.7"
cortex-m-rt = "0.7"
alloc-cortex-m = "0.4"
defmt = "0.3"
embedded-hal = "0.2"
fugit = "0.3"
hd44780-driver = "0.4"
keypad2 = "0.1"
stm32f4xx-hal = { version = "0.14", features = ["stm32f401"] }
