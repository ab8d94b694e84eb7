[package]
name = "tx42_keeb"
version = "0.1.0"
edition = "2021"
publish = false

[dependencies]
cortex-m = "=0.7.10"
cortex-m-rt = "=0.7.7"
critical-section = "=1.2.0"
defmt = "=0.3.101"
defmt-rtt = "=0.4.2"
embedded-graphics = "=0.7.1"
embedded-hal = "=0.2.7"
keyberon = "=0.1.1"
panic-probe = { version = "=0.3.2", features = ["print-defmt"] }
rp-pico = "=0.7.0"
ssd1306 = "=0.7.1"
usb-device = "=0.2.9"
