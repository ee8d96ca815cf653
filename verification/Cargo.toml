[package]
name = "epd7in5_v2"
version = "0.1.0"
edition = "2021"
publish = false

[dependencies]
embedded-hal = "1"
embedded-hal-async = "1"
embedded-hal-bus = "*"
esp-hal = { version = "1", features = ["esp32s3", "unstable"] }
esp-println = { version = "*", features = ["esp32s3"] }
esp-bootloader-esp-idf = { version = "*", features = ["esp32s3"] }

[dev-dependencies]
embedded-hal-mock = { version = "*", default-features = false, features = ["eh1"] }
