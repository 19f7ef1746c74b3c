[package]
name = "qoi_display"
version = "0.1.0"
edition = "2021"
publish = false

[dependencies]
embedded-graphics = "=0.8.2"
tinyqoi = "=0.2.0"
cortex-m-rt = "=0.7.7"
defmt = "=0.3.101"
defmt-rtt = "=0.4.2"
embedded-hal = "=0.2.7"
embedded-sdmmc = "=0.6.0"
fugit = "=0.3.9"
gc9a01-rs = "=0.1.0"
panic-probe = { version = "=0.3.2", features = ["print-defmt"] }
seeeduino-xiao-rp2040 = "=0.5.0"
shared-bus = "=0.3.1"
