//! The application-side platform (I2C access and blocking delays), the first contact
//! with a sensor (ping), and the entry points through which the vendor driver reaches
//! the platform.
use vstd::prelude::*;

use crate::i2c_addr::I2cAddr;
use crate::status::{Error, Result, ST_ERROR, ST_OK};

verus! {

/// Provided by the application: access to the sensor over I2C, and blocking delays.
///
/// Errors carry no detail: the vendor driver only tells success from failure.
pub trait Platform {
    /// Reads `buf.len()` bytes starting at register `index`.
    fn rd_bytes(&mut self, index: u16, buf: &mut [u8]) -> (r: core::result::Result<(), ()>)
        ensures
            final(buf)@.len() == old(buf)@.len(),
    ;

    /// Writes `vs` starting at register `index`.
    fn wr_bytes(&mut self, index: u16, vs: &[u8]) -> core::result::Result<(), ()>;

    /// Waits `ms` milliseconds.
    fn delay_ms(&mut self, ms: u32);

    /// The sensor answers at `addr` from the next transfer on (its address was
    /// changed); platforms that address the sensor themselves follow it.
    fn addr_changed(&mut self, addr: &I2cAddr) {
    }
}

/// Register index that selects the register page.
pub const PAGE_SELECT_INDEX: u16 = 0x7fff;

/// Reads the device and revision ids; the only access the vendor driver makes before
/// its firmware is loaded. It selects register page 0, reads the two ids at index 0
/// into a buffer that holds 0xff 0xff, and selects page 2 again, each transfer on the
/// platform as the one before left it; the first transfer that fails ends it with `Err`.
pub fn vl_ping<P: Platform>(pl: &mut P) -> (r: core::result::Result<(u8, u8), ()>)
    ensures
        exists|q1: &mut P, s1: &[u8], r1: core::result::Result<(), ()>|
            #![trigger call_ensures(P::wr_bytes, (q1, PAGE_SELECT_INDEX, s1), r1)]
            *q1 == *old(pl) && s1@ == seq![0x00u8]
                && call_ensures(P::wr_bytes, (q1, PAGE_SELECT_INDEX, s1), r1) && match r1 {
                Err(()) => *final(pl) == *final(q1) && r == Err::<(u8, u8), ()>(()),
                Ok(()) => exists|q2: &mut P, b: &mut [u8], r2: core::result::Result<(), ()>|
                    #![trigger call_ensures(P::rd_bytes, (q2, 0u16, b), r2)]
                    *q2 == *final(q1) && (*b)@ == seq![0xffu8, 0xffu8]
                        && call_ensures(P::rd_bytes, (q2, 0u16, b), r2) && match r2 {
                        Err(()) => *final(pl) == *final(q2) && r == Err::<(u8, u8), ()>(()),
                        Ok(()) => exists|q3: &mut P, s3: &[u8], r3: core::result::Result<(), ()>|
                            #![trigger call_ensures(P::wr_bytes, (q3, PAGE_SELECT_INDEX, s3), r3)]
                            *q3 == *final(q2) && s3@ == seq![0x02u8]
                                && call_ensures(P::wr_bytes, (q3, PAGE_SELECT_INDEX, s3), r3)
                                && *final(pl) == *final(q3) && r == match r3 {
                                Ok(()) => Ok::<(u8, u8), ()>(((*final(b))@[0], (*final(b))@[1])),
                                Err(()) => Err(()),
                            },
                    },
            },
{
    let ghost p0 = *pl;
    let page0: [u8; 1] = [0x00];
    let s1: &[u8] = &page0;
    assert(s1@ =~= seq![0x00u8]);
    let r1 = pl.wr_bytes(PAGE_SELECT_INDEX, s1);
    let ghost p1 = *pl;
    assert(exists|q1: &mut P|
        #![trigger call_ensures(P::wr_bytes, (q1, PAGE_SELECT_INDEX, s1), r1)]
        *q1 == p0 && *final(q1) == p1 && call_ensures(P::wr_bytes, (q1, PAGE_SELECT_INDEX, s1), r1));
    if r1.is_err() {
        return Err(());
    }
    let mut buf: [u8; 2] = [u8::MAX; 2];
    assert(buf@ =~= seq![0xffu8, 0xffu8]);
    let r2 = pl.rd_bytes(0, &mut buf);
    let ghost p2 = *pl;
    assert(exists|q2: &mut P, b: &mut [u8]|
        #![trigger call_ensures(P::rd_bytes, (q2, 0u16, b), r2)]
        *q2 == p1 && *final(q2) == p2 && (*b)@ == seq![0xffu8, 0xffu8] && (*final(b))@ == buf@
            && call_ensures(P::rd_bytes, (q2, 0u16, b), r2));
    if r2.is_err() {
        return Err(());
    }
    let page2: [u8; 1] = [0x02];
    let s3: &[u8] = &page2;
    assert(s3@ =~= seq![0x02u8]);
    let r3 = pl.wr_bytes(PAGE_SELECT_INDEX, s3);
    assert(exists|q3: &mut P|
        #![trigger call_ensures(P::wr_bytes, (q3, PAGE_SELECT_INDEX, s3), r3)]
        *q3 == p2 && *final(q3) == *pl && call_ensures(P::wr_bytes, (q3, PAGE_SELECT_INDEX, s3), r3));
    if r3.is_err() {
        return Err(());
    }
    Ok((buf[0], buf[1]))
}

/// The same ping, under the name of the single-chip driver: what `vl_ping` gives, on
/// the same platform.
pub fn vl53l5cx_ping<P: Platform>(pl: &mut P) -> (r: core::result::Result<(u8, u8), ()>)
    ensures
        exists|q: &mut P|
            #![trigger call_ensures(vl_ping::<P>, (q,), r)]
            *q == *old(pl) && *final(q) == *final(pl) && call_ensures(vl_ping::<P>, (q,), r),
{
    vl_ping(pl)
}

/// The device id that every supported sensor reports.
pub const DEVICE_ID: u8 = 0xf0;

/// The revision id of the VL53L5CX.
pub const CORRECT_REV_ID: u8 = 0x02;

/// The revision id of the VL53L8CX.
pub const VL53L8CX_REV_ID: u8 = 0x0c;

/// Whether the ids read belong to the expected sensor.
pub open spec fn ids_match(dev_id: u8, rev_id: u8, expected_rev_id: u8) -> bool {
    dev_id == DEVICE_ID && rev_id == expected_rev_id
}

/// Whether the ids read belong to the expected sensor; see `ids_match`.
pub fn check_ids(dev_id: u8, rev_id: u8, expected_rev_id: u8) -> (r: bool)
    ensures
        r == ids_match(dev_id, rev_id, expected_rev_id),
{
    dev_id == DEVICE_ID && rev_id == expected_rev_id
}

/// Start of access to one sensor: the platform, once a ping has found the sensor.
pub struct VL53<P: Platform> {
    p: P,
}

impl<P: Platform> VL53<P> {
    /// The platform held.
    pub closed spec fn spec_platform(&self) -> P {
        self.p
    }

    /// The verdict on a ping for a sensor of revision `expected_rev_id`: `Ok` exactly
    /// when the bus worked and the ids read are those of that sensor.
    pub open spec fn spec_ping_verdict_as(
        ids: core::result::Result<(u8, u8), ()>,
        expected_rev_id: u8,
    ) -> core::result::Result<(), ()> {
        match ids {
            Ok((a, b)) => if ids_match(a, b, expected_rev_id) {
                Ok(())
            } else {
                Err(())
            },
            Err(()) => Err(()),
        }
    }

    /// The verdict on a ping for a VL53L5CX (`CORRECT_REV_ID`).
    pub open spec fn spec_ping_verdict(ids: core::result::Result<(u8, u8), ()>) -> core::result::Result<(), ()> {
        Self::spec_ping_verdict_as(ids, CORRECT_REV_ID)
    }

    /// The verdict on the ids that a ping gave, for a sensor of revision
    /// `expected_rev_id`; see `spec_ping_verdict_as`.
    pub fn ping_verdict_as(ids: core::result::Result<(u8, u8), ()>, expected_rev_id: u8) -> (r:
        core::result::Result<(), ()>)
        ensures
            r == Self::spec_ping_verdict_as(ids, expected_rev_id),
    {
        match ids {
            Ok((a, b)) => if check_ids(a, b, expected_rev_id) {
                Ok(())
            } else {
                Err(())
            },
            Err(()) => Err(()),
        }
    }

    /// The verdict on the ids that a ping gave, for a VL53L5CX; see `spec_ping_verdict`.
    pub fn ping_verdict(ids: core::result::Result<(u8, u8), ()>) -> (r: core::result::Result<(), ()>)
        ensures
            r == Self::spec_ping_verdict(ids),
    {
        Self::ping_verdict_as(ids, CORRECT_REV_ID)
    }

    /// Pings for a sensor of revision `expected_rev_id` (`CORRECT_REV_ID` for the
    /// VL53L5CX, `VL53L8CX_REV_ID` for the VL53L8CX): the verdict on what `vl_ping`
    /// gives on the same platform.
    pub fn ping_as(p: &mut P, expected_rev_id: u8) -> (r: core::result::Result<(), ()>)
        ensures
            exists|q: &mut P, ids: core::result::Result<(u8, u8), ()>|
                #![trigger call_ensures(vl_ping::<P>, (q,), ids)]
                *q == *old(p) && *final(q) == *final(p) && call_ensures(vl_ping::<P>, (q,), ids)
                    && r == Self::spec_ping_verdict_as(ids, expected_rev_id),
    {
        let ids = vl_ping(p);
        Self::ping_verdict_as(ids, expected_rev_id)
    }

    /// Pings the sensor; `Ok` when the platform read ids of a VL53L5CX: the verdict on
    /// what `vl_ping` gives on the same platform.
    pub fn ping(p: &mut P) -> (r: core::result::Result<(), ()>)
        ensures
            exists|q: &mut P, ids: core::result::Result<(u8, u8), ()>|
                #![trigger call_ensures(vl_ping::<P>, (q,), ids)]
                *q == *old(p) && *final(q) == *final(p) && call_ensures(vl_ping::<P>, (q,), ids)
                    && r == Self::spec_ping_verdict(ids),
    {
        Self::ping_as(p, CORRECT_REV_ID)
    }

    /// Pings for a sensor of revision `expected_rev_id` and keeps the platform: `Ok`,
    /// holding the platform as the ping left it, exactly when `ping_as` gives `Ok`;
    /// otherwise the generic error.
    pub fn new_with_ping_as(p: P, expected_rev_id: u8) -> (r: Result<Self>)
        ensures
            exists|q: &mut P, v: core::result::Result<(), ()>|
                #![trigger call_ensures(Self::ping_as, (q, expected_rev_id), v)]
                *q == p && call_ensures(Self::ping_as, (q, expected_rev_id), v) && match v {
                    Ok(()) => r matches Ok(s) && s.spec_platform() == *final(q),
                    Err(()) => r == Err::<Self, Error>(Error(ST_ERROR)),
                },
    {
        let mut p = p;
        match Self::ping_as(&mut p, expected_rev_id) {
            Err(_) => Err(Error(ST_ERROR)),
            Ok(()) => Ok(Self { p }),
        }
    }

    /// Pings for a VL53L5CX and keeps the platform: `Ok`, holding the platform as the
    /// ping left it, exactly when `ping` gives `Ok`; otherwise the generic error.
    pub fn new_with_ping(p: P) -> (r: Result<Self>)
        ensures
            exists|q: &mut P, v: core::result::Result<(), ()>|
                #![trigger call_ensures(Self::ping, (q,), v)]
                *q == p && call_ensures(Self::ping, (q,), v) && match v {
                    Ok(()) => r matches Ok(s) && s.spec_platform() == *final(q),
                    Err(()) => r == Err::<Self, Error>(Error(ST_ERROR)),
                },
    {
        let mut p = p;
        match Self::ping(&mut p) {
            Err(_) => Err(Error(ST_ERROR)),
            Ok(()) => Ok(Self { p }),
        }
    }

    /// Hands the platform to the vendor driver's initialization `init_with` (firmware
    /// upload and default settings) and gives its outcome.
    pub fn init<H, F: FnOnce(P) -> Result<H>>(self, init_with: F) -> (r: Result<H>)
        requires
            call_requires(init_with, (self.spec_platform(),)),
        ensures
            call_ensures(init_with, (self.spec_platform(),), r),
    {
        init_with(self.p)
    }
}

/// The vendor driver's status for a platform outcome.
pub open spec fn spec_status_of(r: core::result::Result<(), ()>) -> u8 {
    match r {
        Ok(()) => ST_OK,
        Err(()) => ST_ERROR,
    }
}

/// The vendor driver's status for a platform outcome; see `spec_status_of`.
pub fn status_of(r: core::result::Result<(), ()>) -> (st: u8)
    ensures
        st == spec_status_of(r),
{
    match r {
        Ok(()) => ST_OK,
        Err(()) => ST_ERROR,
    }
}

/// Reads one byte at `addr` for the vendor driver: the platform reads into a one-byte
/// buffer that holds `*p_value`, whose byte then lands in `*p_value`; returns the status
/// of the platform's outcome.
#[allow(non_snake_case)]
pub fn VL53L5CX_RdByte<P: Platform>(pt: &mut P, addr: u16, p_value: &mut u8) -> (st: u8)
    ensures
        exists|q: &mut P, b: &mut [u8], r: core::result::Result<(), ()>|
            #![trigger call_ensures(P::rd_bytes, (q, addr, b), r)]
            *q == *old(pt) && *final(q) == *final(pt) && (*b)@ == seq![*old(p_value)]
                && (*final(b))@ == seq![*final(p_value)] && call_ensures(P::rd_bytes, (q, addr, b), r)
                && st == spec_status_of(r),
{
    let mut buf: [u8; 1] = [*p_value];
    assert(buf@ =~= seq![*p_value]);
    let r = pt.rd_bytes(addr, &mut buf);
    *p_value = buf[0];
    assert(buf@ =~= seq![*p_value]);
    status_of(r)
}

/// Writes one byte at `addr` for the vendor driver; returns the status of the
/// platform's outcome.
#[allow(non_snake_case)]
pub fn VL53L5CX_WrByte<P: Platform>(pt: &mut P, addr: u16, v: u8) -> (st: u8)
    ensures
        exists|q: &mut P, s: &[u8], r: core::result::Result<(), ()>|
            #![trigger call_ensures(P::wr_bytes, (q, addr, s), r)]
            *q == *old(pt) && *final(q) == *final(pt) && s@ == seq![v]
                && call_ensures(P::wr_bytes, (q, addr, s), r) && st == spec_status_of(r),
{
    let one: [u8; 1] = [v];
    let s: &[u8] = &one;
    assert(s@ =~= seq![v]);
    status_of(pt.wr_bytes(addr, s))
}

/// Reads `p_values.len()` bytes at `addr` into `p_values` for the vendor driver; returns
/// the status of the platform's outcome.
#[allow(non_snake_case)]
pub fn VL53L5CX_RdMulti<P: Platform>(pt: &mut P, addr: u16, p_values: &mut [u8]) -> (st: u8)
    ensures
        final(p_values)@.len() == old(p_values)@.len(),
        exists|q: &mut P, b: &mut [u8], r: core::result::Result<(), ()>|
            #![trigger call_ensures(P::rd_bytes, (q, addr, b), r)]
            *q == *old(pt) && *final(q) == *final(pt) && (*b)@ == old(p_values)@
                && (*final(b))@ == final(p_values)@ && call_ensures(P::rd_bytes, (q, addr, b), r)
                && st == spec_status_of(r),
{
    status_of(pt.rd_bytes(addr, p_values))
}

/// Writes `p_values` at `addr` for the vendor driver; returns the status of the
/// platform's outcome.
#[allow(non_snake_case)]
pub fn VL53L5CX_WrMulti<P: Platform>(pt: &mut P, addr: u16, p_values: &[u8]) -> (st: u8)
    ensures
        exists|q: &mut P, s: &[u8], r: core::result::Result<(), ()>|
            #![trigger call_ensures(P::wr_bytes, (q, addr, s), r)]
            *q == *old(pt) && *final(q) == *final(pt) && s@ == p_values@
                && call_ensures(P::wr_bytes, (q, addr, s), r) && st == spec_status_of(r),
{
    status_of(pt.wr_bytes(addr, p_values))
}

/// The longest wait that the vendor driver asks for, in ms.
pub const MAX_WAIT_MS: u32 = 100;

/// Waits for the vendor driver, by the platform's delay of `time_ms`; it never asks for
/// more than `MAX_WAIT_MS`. The wait always ends well.
#[allow(non_snake_case)]
pub fn VL53L5CX_WaitMs<P: Platform>(pt: &mut P, time_ms: u32) -> (st: u8)
    requires
        time_ms <= MAX_WAIT_MS,
    ensures
        st == ST_OK,
        exists|q: &mut P|
            #![trigger call_ensures(P::delay_ms, (q, time_ms), ())]
            *q == *old(pt) && *final(q) == *final(pt) && call_ensures(P::delay_ms, (q, time_ms), ()),
{
    pt.delay_ms(time_ms);
    ST_OK
}

/// `buf` with each 4-byte group among its first `size` bytes reversed (ABCD becomes
/// DCBA); a partial group at the end, and bytes past `size`, stay.
pub open spec fn swapped(buf: Seq<u8>, size: int) -> Seq<u8> {
    Seq::new(
        buf.len(),
        |i: int|
            if i < (size / 4) * 4 {
                buf[(i / 4) * 4 + (3 - i % 4)]
            } else {
                buf[i]
            },
    )
}

/// Reverses the byte order of each 4-byte group of the first `size` bytes, for the
/// vendor driver; see `swapped`.
#[allow(non_snake_case)]
pub fn VL53L5CX_SwapBuffer(buf: &mut [u8], size: u16)
    requires
        size as int <= old(buf)@.len(),
    ensures
        final(buf)@ == swapped(old(buf)@, size as int),
{
    let words: usize = (size as usize) / 4;
    let ghost orig = buf@;
    let mut w: usize = 0;
    while w < words
        invariant
            words == size as int / 4,
            size as int <= orig.len(),
            w <= words,
            buf@.len() == orig.len(),
            forall|i: int|
                0 <= i < orig.len() ==> #[trigger] buf@[i] == (if i < w * 4 {
                    orig[(i / 4) * 4 + (3 - i % 4)]
                } else {
                    orig[i]
                }),
        decreases words - w,
    {
        let k: usize = w * 4;
        let b0: u8 = buf[k];
        let b1: u8 = buf[k + 1];
        let b2: u8 = buf[k + 2];
        let b3: u8 = buf[k + 3];
        buf[k] = b3;
        buf[k + 1] = b2;
        buf[k + 2] = b1;
        buf[k + 3] = b0;
        w = w + 1;
    }
    assert(buf@ =~= swapped(orig, size as int));
}

/// Swapping twice restores the buffer.
pub proof fn lemma_swap_involution(buf: Seq<u8>, size: int)
    requires
        0 <= size <= buf.len(),
    ensures
        swapped(swapped(buf, size), size) == buf,
{
    let once = swapped(buf, size);
    let twice = swapped(once, size);
    assert forall|i: int| 0 <= i < buf.len() implies #[trigger] twice[i] == buf[i] by {
        if i < (size / 4) * 4 {
            let j: int = (i / 4) * 4 + (3 - i % 4);
            assert(j / 4 == i / 4);
            assert(j % 4 == 3 - i % 4);
            assert(j < (size / 4) * 4);
            assert((j / 4) * 4 + (3 - j % 4) == i);
        }
    }
    assert(twice =~= buf);
}

} // verus!
