//! Carriers for physical units of the single-chip interface.
use vstd::prelude::*;

verus! {

/// A frequency in Hz.
#[derive(Clone, Debug)]
pub struct Hz(pub u8);

/// A duration in ms.
#[derive(Clone, Debug)]
pub struct Ms(pub u16);

/// A temperature in °C; negative values are possible.
#[derive(Clone, Debug)]
pub struct TempC(pub i8);

} // verus!
