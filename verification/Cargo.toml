[package]
name = "wifi-caddy"
version = "0.1.0"
edition = "2021"
publish = false

[dependencies]
heapless = "0.8"
syn = { version = "2", features = ["full"] }
quote = "1"
proc-macro2 = "1"
proc-macro-crate = "3"
enumset = "1.1"
serde = { version = "1", default-features = false, features = ["derive"] }
serde-json-core = "*"
static_cell = "2"
embassy-sync = "*"
embassy-net = { version = "*", features = ["tcp", "udp", "proto-ipv4", "dhcpv4", "medium-ethernet"] }
embassy-time = "*"
embassy-executor = "*"
embassy-futures = "*"
embedded-io-async = "*"
edge-http = "*"
edge-nal = "*"
edge-nal-embassy = "*"
edge-dhcp = "*"
edge-captive = "*"
sequential-storage = "*"
embassy-embedded-hal = "*"
esp-hal = { version = "*", features = ["esp32c6", "unstable"] }
esp-radio = { version = "*", features = ["esp32c6", "wifi"] }
esp-storage = { version = "*", features = ["esp32c6"] }
esp-bootloader-esp-idf = { version = "*", features = ["esp32c6"] }
