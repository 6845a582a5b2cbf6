[package]
name = "tembed_ui"
version = "0.1.0"
edition = "2021"
publish = false

[dependencies]
embedded-sdmmc = "*"
embedded-hal = "1"
ratatui = { version = "*", default-features = false }
trouble-host = "*"
rand = { version = "*", default-features = false }
rand_chacha = { version = "*", default-features = false }
embassy-sync = "*"
embassy-futures = "*"
embassy-time = "*"
embassy-executor = "*"
embedded-graphics = "*"
embedded-hal-bus = "*"
display-interface-spi = "*"
mipidsi = "*"
mousefood = { version = "*", default-features = false }
log = "*"
rtt-target = "*"
esp-hal = "*"
esp-radio = "*"
esp-rtos = "*"
esp-alloc = "*"
esp-println = "*"
esp-bootloader-esp-idf = "*"
