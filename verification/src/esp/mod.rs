//! Decisions of the ESP32 integration: the WiFi runner, the flash config
//! storage and the config partition lookup.
pub mod partition;
pub mod storage;
pub mod wifi;
