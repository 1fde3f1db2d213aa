[package]
name = "sunrise_alarm"
version = "0.1.0"
edition = "2021"
publish = false

[dependencies]
cortex-m = "=0.7.10"
cyw43 = "=0.6.0"
cyw43-pio = "=0.9.0"
defmt = "=1.2.0"
defmt-rtt = "=1.3.1"
embassy-executor = { version = "=0.10.0", features = ["platform-std", "executor-thread"] }
embassy-net = { version = "=0.9.1", features = ["tcp", "proto-ipv4", "medium-ethernet"] }
embassy-rp = { version = "=0.9.0", features = ["rp235xa", "time-driver", "_test"] }
embassy-stm32 = { version = "=0.6.0", features = ["stm32u545re", "time-driver-any", "exti"] }
embassy-sync = "=0.8.0"
embassy-time = "=0.5.1"
embedded-graphics = "=0.8.1"
embedded-hal = "=0.2.7"
heapless = "=0.8.0"
panic-probe = "=1.0.0"
serde = { version = "=1.0.229", default-features = false, features = ["derive"] }
st7735-lcd = "=0.9.0"
static_cell = "=2.1.1"

[lints.rust]
unexpected_cfgs = { level = "warn", check-cfg = ["cfg(network_board)"] }
