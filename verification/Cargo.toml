[package]
name = "c6_open_mac"
version = "0.1.0"
edition = "2021"
publish = false

[dependencies]
ieee80211 = "*"
embassy-executor = "*"
esp-alloc = "*"
esp-backtrace = { version = "*", features = ["esp32c6", "println"] }
esp-bootloader-esp-idf = { version = "*", features = ["esp32c6"] }
esp-hal = { version = "*", features = ["esp32c6", "unstable"] }
esp-println = { version = "*", features = ["esp32c6"] }
esp-radio = { version = "*", features = ["esp32c6", "wifi", "sniffer", "unstable"] }
esp-rtos = { version = "*", features = ["esp32c6", "esp-radio"] }
