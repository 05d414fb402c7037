//! Driver logic for the VL53L5CX / VL53L8CX multizone time-of-flight sensors.
pub mod call_plan;
pub mod flock;
pub mod i2c_addr;
pub mod platform;
pub mod ranging;
pub mod ranging_flock;
pub mod results_data;
pub mod status;
pub mod uld_platform;
pub mod units;
pub mod vl;
pub mod vl53l5cx;
