//! Carriers for physical units (ms, Hz, %, °C).
//!
//! They keep values apart from each other and from plain integers, and allow the
//! configuration to be written as `5.ms()`.
use vstd::prelude::*;

verus! {

/// A frequency in Hz (the sensor takes at most 60).
#[derive(Copy, Clone, Debug)]
pub struct HzU8(pub u8);

/// A duration in milliseconds (enough for about a minute).
#[derive(Copy, Clone, Debug)]
pub struct MsU16(pub u16);

/// A percentage (0..100, though larger values are carried as well).
#[derive(Copy, Clone, Debug)]
pub struct PrcU8(pub u8);

/// Constructors of the unit carriers from integer literals.
pub trait ExtU32: Sized {
    /// The integer value of `self`.
    spec fn spec_value(self) -> int;

    /// Whether `self` fits a millisecond carrier.
    spec fn spec_fits_ms(self) -> bool;

    /// The value as milliseconds; it must fit 16 bits.
    fn ms(self) -> (r: MsU16)
        requires
            self.spec_fits_ms(),
        ensures
            r.0 == self.spec_value(),
    ;

    /// The value as a percentage; it is kept modulo 256, not clamped.
    fn prc(self) -> (r: PrcU8)
        ensures
            r.0 == self.spec_value() % 256,
    ;
}

impl ExtU32 for u32 {
    open spec fn spec_value(self) -> int {
        self as int
    }

    open spec fn spec_fits_ms(self) -> bool {
        self <= 0xffff
    }

    fn ms(self) -> (r: MsU16) {
        MsU16(self as u16)
    }

    fn prc(self) -> (r: PrcU8) {
        let v: u8 = #[verifier::truncate] (self as u8);
        assert(v == self % 256) by (bit_vector)
            requires
                v == #[verifier::truncate] (self as u8),
        ;
        PrcU8(v)
    }
}

/// A temperature in °C; negative values are possible.
#[derive(Copy, Clone, Debug)]
pub struct TempC(pub i8);

} // verus!
