pub mod ble;
