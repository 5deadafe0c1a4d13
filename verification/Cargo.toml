[package]
name = "quad_flight"
version = "0.1.0"
edition = "2021"
publish = false

[dependencies]
crsf = "=2.0.1"
nalgebra = "=0.35.0"
libm = "=0.2.16"
anyhow = "=1.0.104"
tracing = "=0.1.44"
tracing-subscriber = "=0.3.23"
gilrs = "=0.11.2"
embassy-time = "=0.5.1"
embassy-sync = "=0.8.0"
embedded-hal-async = "=1.0.0"
embedded-hal-bus = { version = "=0.3.0", features = ["async"] }
icm426xx = { version = "=0.4.0", features = ["async"] }
icm20948-async = "=0.6.0"
mpu9250-async = "=0.2.0"
embassy-executor = "=0.10.0"
embassy-rp = { version = "=0.10.0", features = ["rp235xa"] }
embassy-dshot = { version = "=0.5.1", features = ["rp235xa"] }
esp-hal = { version = "*", features = ["esp32s3", "unstable"] }
esp-rtos = { version = "*", features = ["esp32s3", "embassy"] }
static_cell = "*"
