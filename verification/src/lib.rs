//! Verified core of a small ESP32 firmware: the typed key-value layer over the
//! non-volatile flash map, the LittleFS block-device adapter and mount sequence,
//! and the decisions of the Bluetooth LE peripheral (device name, advertising
//! payload and GATT event handling).

pub mod connectivity;
pub mod storage;
