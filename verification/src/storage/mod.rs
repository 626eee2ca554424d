pub mod littlefs;
pub mod nvs;
