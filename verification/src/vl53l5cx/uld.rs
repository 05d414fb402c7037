//! What the vendor driver's calls answer, as results: each function takes the status
//! (and the value written back) of one vendor call.
use vstd::prelude::*;

use crate::status::{PowerMode, ST_OK};
use super::device::Result;

verus! {

/// Whether the sensor is alive, from the status and flag of the vendor's query.
pub fn vl53l5cx_is_alive(st: u8, buf: u8) -> (r: Result<bool>)
    ensures
        st == ST_OK ==> r == Ok::<bool, u8>(buf != 0),
        st != ST_OK ==> r == Err::<bool, u8>(st),
{
    if st == ST_OK {
        Ok(buf != 0)
    } else {
        Err(st)
    }
}

/// The outcome of the vendor's initialization (reset, firmware, defaults).
pub fn vl53l5cx_init(st: u8) -> (r: Result<()>)
    ensures
        st == ST_OK ==> r == Ok::<(), u8>(()),
        st != ST_OK ==> r == Err::<(), u8>(st),
{
    if st == ST_OK {
        Ok(())
    } else {
        Err(st)
    }
}

/// The outcome of moving the sensor to another I2C address.
pub fn vl53lcx_set_i2c_address(st: u8) -> (r: Result<()>)
    ensures
        st == ST_OK ==> r == Ok::<(), u8>(()),
        st != ST_OK ==> r == Err::<(), u8>(st),
{
    vl53l5cx_init(st)
}

/// The power mode, from the status and code of the vendor's query; the code of a
/// successful query is a known mode.
pub fn vl53lcx_get_power_mode(st: u8, buf: u8) -> (r: Result<PowerMode>)
    requires
        st == ST_OK ==> buf <= 1,
    ensures
        st == ST_OK ==> (r matches Ok(m) && m.spec_value() == buf),
        st != ST_OK ==> r == Err::<PowerMode, u8>(st),
{
    if st == ST_OK {
        Ok(PowerMode::from(buf))
    } else {
        Err(st)
    }
}

} // verus!
