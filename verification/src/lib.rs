//! Core logic of a bike computer: decoders for the binary payloads of
//! Bluetooth cycling sensors (speed/cadence, power, heart rate), the engine
//! that turns pairs of wrapping revolution counters into rates, the repeat
//! tree that describes a workout, and the scheduler decisions that drive a
//! trainer's target power over time.
pub mod ble;
pub mod cycle_tree;
pub mod fit;
pub mod fit_session;
pub mod telemetry_url;
pub mod ui;
pub mod utils;
pub mod workout;
