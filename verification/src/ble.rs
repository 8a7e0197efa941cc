//! Decoders for BLE GATT characteristic payloads and the rate engine that
//! interprets consecutive revolution snapshots.
pub mod csc_measurement;
pub mod cycling_power_measurement;
pub mod heart_rate_measurement;
pub mod payload;
pub mod revolution_data;
