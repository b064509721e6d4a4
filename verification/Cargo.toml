[package]
name = "led_matrix"
version = "0.1.0"
edition = "2021"
publish = false

[dependencies]
cortex-m = "0.6"
cortex-m-rt = "0.6"
panic-halt = "0.2"
stm32f7xx-hal = { version = "=0.3.0", features = ["stm32f767", "rt"] }
