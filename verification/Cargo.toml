[package]
name = "kazam"
version = "0.1.0"
edition = "2021"
publish = false

[dependencies]
sequential-storage = "*"
embedded-storage = "*"
embedded-storage-async = "*"
embassy-sync = "*"
embassy-futures = "*"
embassy-executor = "*"
heapless = "*"
trouble-host = "*"
bt-hci = "*"
littlefs2 = "*"
serde = "*"
log = "*"
static_cell = "*"
esp-hal = "*"
esp-storage = "*"
esp-radio = "*"
esp-bootloader-esp-idf = "*"
