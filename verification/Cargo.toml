[package]
name = "nrf-dfu"
version = "0.1.0"
edition = "2021"
publish = false

[dependencies]
defmt = "0.3"
defmt-rtt = "0.4.2"
display-interface-spi = "0.4.1"
embassy-executor = { version = "0.5.1", features = ["integrated-timers"] }
embassy-futures = "0.1.2"
embassy-nrf = { version = "0.1.0", features = ["nrf52832", "time-driver-rtc1", "gpiote"] }
embassy-sync = "0.5.0"
embassy-time = "0.3.2"
embedded-graphics = "0.8.2"
embedded-storage = "=0.3.2"
embedded-storage-async = "=0.4.2"
embedded-text = "0.7.3"
heapless = "0.8.0"
mipidsi = "0.7.1"
nrf-softdevice = { version = "0.1.0", features = ["nrf52832", "s132", "ble-peripheral", "ble-gatt-server", "critical-section-impl"] }
panic-probe = "0.3.2"
static_cell = "2.1.1"
u8g2-fonts = "0.4.0"
