//! One sensor, initialized and moved to its own I2C address.
use vstd::prelude::*;

use crate::i2c_addr::{I2cAddr, DEFAULT_I2C_ADDR_8BIT};
use crate::platform::{Platform, VL53};
use crate::status::{Error, Result};

verus! {

/// The vendor's 8-bit address to move a sensor to, so that it answers at `i2c_addr`;
/// nothing when that is the default address every sensor starts at.
pub open spec fn spec_address_change(i2c_addr: I2cAddr) -> Option<u8> {
    if 2 * i2c_addr@ == DEFAULT_I2C_ADDR_8BIT {
        None
    } else {
        Some((2 * i2c_addr@) as u8)
    }
}

/// The address change needed for `i2c_addr`; see `spec_address_change`.
pub fn address_change(i2c_addr: I2cAddr) -> (r: Option<u8>)
    ensures
        r == spec_address_change(i2c_addr),
{
    let a: u8 = i2c_addr.as_8bit();
    if a != DEFAULT_I2C_ADDR_8BIT {
        Some(a)
    } else {
        None
    }
}

/// One sensor: the vendor driver's idle state `H`, reachable at its own address.
pub struct VL<H> {
    uld: H,
}

impl<H> VL<H> {
    /// The idle driver state held.
    pub closed spec fn spec_uld(&self) -> H {
        self.uld
    }

    /// Pings the sensor on platform `p`, initializes it with `init`, and moves it to
    /// `i2c_addr` with `set_address` (given the vendor's 8-bit address) unless that is
    /// the default address. The first step that fails gives its error: the failed ping
    /// the generic error, else `init`'s error, else `set_address`'s error.
    pub fn new_and_setup<P: Platform, F: FnOnce(P) -> Result<H>, G: FnOnce(H, u8) -> Result<H>>(
        p: P,
        i2c_addr: I2cAddr,
        init: F,
        set_address: G,
    ) -> (r: Result<Self>)
        requires
            forall|q: P| call_requires(init, (q,)),
            forall|h: H, a: u8| #[trigger] call_requires(set_address, (h, a)),
        ensures
            exists|v: Result<VL53<P>>|
                #![trigger call_ensures(VL53::<P>::new_with_ping, (p,), v)]
                call_ensures(VL53::<P>::new_with_ping, (p,), v) && match v {
                    Err(e) => r == Err::<Self, Error>(e),
                    Ok(vl53) => exists|ri: Result<H>|
                        #![trigger call_ensures(init, (vl53.spec_platform(),), ri)]
                        call_ensures(init, (vl53.spec_platform(),), ri) && match ri {
                            Err(e) => r == Err::<Self, Error>(e),
                            Ok(h) => match spec_address_change(i2c_addr) {
                                None => r matches Ok(vl) && vl.spec_uld() == h,
                                Some(a) => exists|rs: Result<H>|
                                    #![trigger call_ensures(set_address, (h, a), rs)]
                                    call_ensures(set_address, (h, a), rs) && match rs {
                                        Err(e) => r == Err::<Self, Error>(e),
                                        Ok(h2) => r matches Ok(vl) && vl.spec_uld() == h2,
                                    },
                            },
                        },
                },
    {
        let vl53 = match VL53::new_with_ping(p) {
            Ok(vl53) => vl53,
            Err(e) => {
                return Err(e);
            },
        };
        let uld = match vl53.init(init) {
            Ok(uld) => uld,
            Err(e) => {
                return Err(e);
            },
        };
        match address_change(i2c_addr) {
            Some(a) => {
                match set_address(uld, a) {
                    Ok(uld) => Ok(VL { uld }),
                    Err(e) => Err(e),
                }
            },
            None => Ok(VL { uld }),
        }
    }

    /// Gives up the sensor's idle driver state, to move it to ranging.
    pub fn into_uld(self) -> (r: H)
        ensures
            r == self.spec_uld(),
    {
        self.uld
    }

    /// The sensor again, from its idle driver state after ranging.
    pub fn recreate(uld: H) -> (r: Self)
        ensures
            r.spec_uld() == uld,
    {
        Self { uld }
    }
}

} // verus!
