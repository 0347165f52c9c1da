[package]
name = "esplay_display"
version = "0.1.0"
edition = "2021"
publish = false

[dependencies]
esp-hal = "*"
esp-alloc = "*"
esp-bootloader-esp-idf = "*"
