//! Opening a single sensor through the single-chip interface.
use vstd::prelude::*;

use crate::platform::{vl53l5cx_ping, Platform};
use crate::status::{ST_ERROR, ST_OK};

verus! {

/// Results of the single-chip interface: errors are the vendor status codes.
pub type Result<T> = core::result::Result<T, u8>;

/// One initialized sensor: the vendor driver's working state `H`, and the driver's
/// version string.
#[allow(non_snake_case)]
pub struct VL53L5CX<'a, H> {
    vl: H,
    pub API_REVISION: &'a str,
}

impl<'a, H> VL53L5CX<'a, H> {
    /// The vendor driver's working state.
    pub closed spec fn spec_state(&self) -> H {
        self.vl
    }

    /// The driver's version string.
    pub closed spec fn spec_api_revision(&self) -> &'a str {
        self.API_REVISION
    }

    /// Pings the sensor. Unexpected ids are tolerated (only logged); only a failing
    /// bus makes it fail: `Ok` exactly when `vl53l5cx_ping` gives ids, on the same
    /// platform.
    pub fn ping<P: Platform>(p: &mut P) -> (r: core::result::Result<(), ()>)
        ensures
            exists|q: &mut P, ids: core::result::Result<(u8, u8), ()>|
                #![trigger call_ensures(vl53l5cx_ping::<P>, (q,), ids)]
                *q == *old(p) && *final(q) == *final(p) && call_ensures(vl53l5cx_ping::<P>, (q,), ids)
                    && (r is Ok <==> ids is Ok),
    {
        let ids = vl53l5cx_ping(p);
        match ids {
            Ok(_) => Ok(()),
            Err(()) => Err(()),
        }
    }

    /// Pings the sensor, then hands the platform, as the ping left it, to the vendor
    /// driver's initialization `init_with`: a failed ping gives the generic error,
    /// otherwise the outcome is `init_with`'s.
    #[allow(non_snake_case)]
    pub fn new_and_init<P: Platform, F: FnOnce(P) -> Result<H>>(
        p: P,
        API_REVISION: &'a str,
        init_with: F,
    ) -> (r: Result<Self>)
        requires
            forall|q: P| call_requires(init_with, (q,)),
        ensures
            exists|q: &mut P, v: core::result::Result<(), ()>|
                #![trigger call_ensures(Self::ping::<P>, (q,), v)]
                *q == p && call_ensures(Self::ping::<P>, (q,), v) && match v {
                    Err(()) => r == Err::<Self, u8>(ST_ERROR),
                    Ok(()) => exists|ri: Result<H>|
                        #![trigger call_ensures(init_with, (*final(q),), ri)]
                        call_ensures(init_with, (*final(q),), ri) && match ri {
                            Ok(h) => r matches Ok(s) && s.spec_state() == h
                                && s.spec_api_revision() == API_REVISION,
                            Err(e) => r == Err::<Self, u8>(e),
                        },
                },
    {
        let mut p = p;
        match Self::ping(&mut p) {
            Err(()) => Err(ST_ERROR),
            Ok(()) => {
                match init_with(p) {
                    Ok(vl) => Ok(VL53L5CX { vl, API_REVISION }),
                    Err(e) => Err(e),
                }
            },
        }
    }

    /// The driver state, for making vendor calls.
    pub fn borrow_uld_mut(&mut self) -> (h: &mut H)
        ensures
            *h == old(self).spec_state(),
            final(self).spec_state() == *final(h),
            final(self).spec_api_revision() == old(self).spec_api_revision(),
    {
        &mut self.vl
    }
}

/// A vendor status as a result of the single-chip interface.
pub fn status_result(st: u8) -> (r: Result<()>)
    ensures
        st == ST_OK ==> r == Ok::<(), u8>(()),
        st != ST_OK ==> r == Err::<(), u8>(st),
{
    if st == ST_OK {
        Ok(())
    } else {
        Err(st)
    }
}

} // verus!
