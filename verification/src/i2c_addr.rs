//! I2C addresses, kept apart from plain integers so that 7-bit and 8-bit forms
//! cannot be mixed up.
use vstd::prelude::*;

verus! {

/// An I2C address, stored in its 7-bit form.
#[derive(Copy, Clone, PartialEq, Eq, Structural, Debug)]
pub struct I2cAddr(u8);

impl I2cAddr {
    /// Every carried address is 7-bit.
    #[verifier::type_invariant]
    spec fn is_7bit(self) -> bool {
        self.0 < 0x80
    }
}

impl View for I2cAddr {
    type V = u8;

    closed spec fn view(&self) -> u8 {
        self.0
    }
}

/// The sensor's address after every power-on, in the vendor's 8-bit form.
pub const DEFAULT_I2C_ADDR_8BIT: u8 = 0x52;

/// The sensor's address after every power-on.
pub fn default_i2c_addr() -> (r: I2cAddr)
    ensures
        r@ == DEFAULT_I2C_ADDR_8BIT / 2,
{
    I2cAddr::from_8bit(DEFAULT_I2C_ADDR_8BIT)
}

impl I2cAddr {
    /// The 7-bit form is the 8-bit one shifted right; the lowest (read/write) bit is dropped.
    pub fn from_8bit(v: u8) -> (r: Self)
        ensures
            r@ == v / 2,
    {
        let w: u8 = v >> 1;
        assert(w == v / 2) by (bit_vector)
            requires
                w == v >> 1,
        ;
        I2cAddr(w)
    }

    /// Takes an address that must already be 7-bit.
    pub fn from_7bit(v: u8) -> (r: Self)
        requires
            v < 0x80,
        ensures
            r@ == v,
    {
        I2cAddr(v)
    }

    /// The 7-bit form, as the I2C bus uses it.
    pub fn as_7bit(&self) -> (r: u8)
        ensures
            r == self@,
            r < 0x80,
    {
        proof {
            use_type_invariant(self);
        }
        self.0
    }

    /// The 8-bit form, as the vendor driver uses it (lowest bit clear).
    pub fn as_8bit(&self) -> (r: u8)
        ensures
            r == 2 * self@,
    {
        proof {
            use_type_invariant(self);
        }
        self.0 * 2
    }
}

/// An even 8-bit address survives the trip through the 7-bit form: `from_8bit(v)`
/// holds `v / 2`, whose 8-bit form `as_8bit` gives `2 * (v / 2)`.
pub proof fn lemma_8bit_roundtrip(v: u8)
    requires
        v % 2 == 0,
    ensures
        2 * (v / 2) == v,
        v / 2 < 0x80,
{
}

/// An address is fully given by its 7-bit form: two addresses with the same 7-bit form
/// are the same address.
pub proof fn lemma_addr_eq(a: I2cAddr, b: I2cAddr)
    requires
        a@ == b@,
    ensures
        a == b,
{
}

/// A 7-bit address shifted into its 8-bit form and back is itself: `from_8bit(v << 1)`
/// is `from_7bit(v)`.
pub proof fn lemma_7bit_through_8bit(v: u8)
    requires
        v < 0x80,
    ensures
        ((v << 1u8) as u8) / 2 == v,
{
    assert(((v << 1u8) as u8) / 2 == v) by (bit_vector)
        requires
            v < 0x80,
    ;
}

/// A register address of the ULD platform layer; must fit 8 bits.
#[allow(non_camel_case_types)]
pub struct I2C_Addr(u8);

impl View for I2C_Addr {
    type V = u8;

    closed spec fn view(&self) -> u8 {
        self.0
    }
}

impl I2C_Addr {
    /// Narrows a 16-bit address; addresses above 0xff are not accepted.
    pub fn from(v: u16) -> (r: Self)
        requires
            v <= 0xff,
        ensures
            r@ == v,
    {
        I2C_Addr(v as u8)
    }
}

} // verus!
