//! The single-chip VL53L5CX driver interface: results with a separate target status
//! matrix, and configurations sized by a `u8` matrix dimension.
pub mod device;
pub mod ranging;
pub mod results_data;
pub mod uld;
pub mod units;
