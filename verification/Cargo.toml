[package]
name = "beltpack"
version = "0.1.0"
edition = "2021"
publish = false

[dependencies]
configparser = "*"
embedded-graphics = "*"
embedded-graphics-core = "*"
gpio-cdev = "*"
linux-embedded-hal = "*"
local-ip-address = "*"
ssd1306 = "*"
u8g2-fonts = "*"
