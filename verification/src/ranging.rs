//! How ranging is to be done (`RangingConfig`), and the sensor's state while it is
//! ranging (`State_Ranging`).
//!
//! The vendor's demands on a configuration (UM2884):
//!   - integration time and frequency apply only to the autonomous mode;
//!   - the integration time is 2..=1000 ms;
//!   - the sum of all integration times, plus 1 ms of overhead, must be below the
//!     ranging period (4x4 takes one integration time, 8x8 four);
//!   - the frequency is 1..=60 Hz for 4x4 and 1..=15 Hz for 8x8;
//!   - the sharpener is 1..=99 % (or off);
//!   - the resolution is set before the frequency.
use vstd::prelude::*;

use crate::results_data::{RawResults, ResultsData};
use crate::ranging_flock::Poll;
use crate::status::{check, ready_from, spec_check, Error, Result, ST_OK};
use crate::units::{ExtU32, HzU8, MsU16, TempC};

verus! {

/// Order in which the targets of a zone are reported.
#[derive(Copy, Clone, Debug, PartialEq, Eq, Structural)]
#[allow(non_camel_case_types)]
pub enum TargetOrder {
    CLOSEST,
    STRONGEST,
}

impl TargetOrder {
    /// The vendor's code of the order.
    pub open spec fn spec_value(self) -> u8 {
        match self {
            TargetOrder::CLOSEST => 1,
            TargetOrder::STRONGEST => 2,
        }
    }

    /// The vendor's code of the order.
    pub fn value(&self) -> (r: u8)
        ensures
            r == self.spec_value(),
    {
        match self {
            TargetOrder::CLOSEST => 1,
            TargetOrder::STRONGEST => 2,
        }
    }
}

/// The vendor's ranging modes.
#[derive(Copy, Clone, Debug, PartialEq, Eq, Structural)]
#[allow(non_camel_case_types)]
pub enum RangingMode {
    CONTINUOUS,
    AUTONOMOUS,
}

impl RangingMode {
    /// The vendor's code of the mode.
    pub open spec fn spec_value(self) -> u8 {
        match self {
            RangingMode::CONTINUOUS => 1,
            RangingMode::AUTONOMOUS => 3,
        }
    }

    /// The vendor's code of the mode.
    pub fn value(&self) -> (r: u8)
        ensures
            r == self.spec_value(),
    {
        match self {
            RangingMode::CONTINUOUS => 1,
            RangingMode::AUTONOMOUS => 3,
        }
    }
}

/// The vendor's resolutions.
#[derive(Copy, Clone, Debug, PartialEq, Eq, Structural)]
#[allow(non_camel_case_types)]
pub enum Resolution {
    _4X4,
    _8X8,
}

impl Resolution {
    /// The vendor's code: the number of zones.
    pub open spec fn spec_value(self) -> u8 {
        match self {
            Resolution::_4X4 => 16,
            Resolution::_8X8 => 64,
        }
    }

    /// The vendor's code: the number of zones.
    pub fn value(&self) -> (r: u8)
        ensures
            r == self.spec_value(),
    {
        match self {
            Resolution::_4X4 => 16,
            Resolution::_8X8 => 64,
        }
    }
}

/// The supported matrix sizes.
pub open spec fn supported_dim(dim: usize) -> bool {
    dim == 4 || dim == 8
}

/// Resolution, number of integration times per ranging period, and the highest
/// ranging frequency, for a `dim` x `dim` matrix.
pub open spec fn reso_details(dim: usize) -> (Resolution, u8, u8) {
    if dim == 4 {
        (Resolution::_4X4, 1, 60)
    } else {
        (Resolution::_8X8, 4, 15)
    }
}

/// The details of resolution `DIM` (4 or 8); see `reso_details`.
pub fn get_reso_details<const DIM: usize>() -> (r: (Resolution, u8, HzU8))
    requires
        supported_dim(DIM),
    ensures
        r.0 == reso_details(DIM).0,
        r.1 == reso_details(DIM).1,
        r.2.0 == reso_details(DIM).2,
{
    if DIM == 4 {
        (Resolution::_4X4, 1, HzU8(60))
    } else {
        (Resolution::_8X8, 4, HzU8(15))
    }
}

/// Ranging mode; the autonomous mode carries its integration time and frequency.
#[derive(Copy, Clone, Debug)]
#[allow(non_camel_case_types)]
pub enum Mode {
    CONTINUOUS,
    AUTONOMOUS(MsU16, HzU8),
}

impl Mode {
    /// The vendor's mode that this mode is.
    pub open spec fn spec_as_uld(self) -> RangingMode {
        match self {
            Mode::CONTINUOUS => RangingMode::CONTINUOUS,
            Mode::AUTONOMOUS(_, _) => RangingMode::AUTONOMOUS,
        }
    }

    /// The vendor's mode that this mode is.
    pub fn as_uld(&self) -> (r: RangingMode)
        ensures
            r == self.spec_as_uld(),
    {
        match self {
            Mode::CONTINUOUS => RangingMode::CONTINUOUS,
            Mode::AUTONOMOUS(_, _) => RangingMode::AUTONOMOUS,
        }
    }
}

/// One call of the vendor driver that applying a configuration makes, with its argument.
#[derive(Copy, Clone, Debug, PartialEq, Eq, Structural)]
pub enum UldCall {
    SetResolution(u8),
    SetIntegrationTimeMs(u32),
    SetRangingFrequencyHz(u8),
    SetRangingMode(u8),
    SetSharpenerPercent(u8),
    SetTargetOrder(u8),
    StartRanging,
}

/// How a ranging session is set up, for a `DIM` x `DIM` matrix.
///
/// Any combination can be built; `validate` tells whether the sensor accepts it.
#[derive(Copy, Clone, Debug)]
pub struct RangingConfig<const DIM: usize> {
    mode: Mode,
    sharpener_prc: Option<u8>,
    target_order: TargetOrder,
}

impl<const DIM: usize> RangingConfig<DIM> {
    pub closed spec fn spec_mode(&self) -> Mode {
        self.mode
    }

    pub closed spec fn spec_sharpener_prc(&self) -> Option<u8> {
        self.sharpener_prc
    }

    pub closed spec fn spec_target_order(&self) -> TargetOrder {
        self.target_order
    }

    /// The configuration with another sharpener setting.
    pub fn with_sharpener_prc(self, v: Option<u8>) -> (r: Self)
        ensures
            r.spec_sharpener_prc() == v,
            r.spec_mode() == self.spec_mode(),
            r.spec_target_order() == self.spec_target_order(),
    {
        Self { sharpener_prc: v, ..self }
    }

    /// The configuration with another target order.
    pub fn with_target_order(self, order: TargetOrder) -> (r: Self)
        ensures
            r.spec_target_order() == order,
            r.spec_mode() == self.spec_mode(),
            r.spec_sharpener_prc() == self.spec_sharpener_prc(),
    {
        Self { target_order: order, ..self }
    }

    /// The configuration with another mode.
    pub fn with_mode(self, mode: Mode) -> (r: Self)
        ensures
            r.spec_mode() == mode,
            r.spec_sharpener_prc() == self.spec_sharpener_prc(),
            r.spec_target_order() == self.spec_target_order(),
    {
        Self { mode, ..self }
    }

    /// The mode's timing fits the resolution: see the module documentation.
    pub open spec fn spec_mode_valid(&self) -> bool {
        match self.spec_mode() {
            Mode::CONTINUOUS => true,
            Mode::AUTONOMOUS(ms, hz) => {
                &&& 2 <= ms.0 <= 1000
                &&& (ms.0 + 1) * reso_details(DIM).1 * hz.0 < 1000
                &&& 1 <= hz.0 <= reso_details(DIM).2
            },
        }
    }

    /// The sharpener is off, or 1..=99 %.
    pub open spec fn spec_sharpener_valid(&self) -> bool {
        match self.spec_sharpener_prc() {
            Some(v) => 1 <= v <= 99,
            None => true,
        }
    }

    /// The sensor accepts this configuration.
    pub open spec fn spec_valid(&self) -> bool {
        self.spec_mode_valid() && self.spec_sharpener_valid()
    }

    /// Whether the sensor accepts this configuration: integration time 2..=1000 ms,
    /// the integration windows plus 1 ms overhead within the period, the frequency
    /// within the resolution's range, and the sharpener off or 1..=99 %. A configuration
    /// it rejects is an error of the caller and must not be used: applying one is ruled
    /// out (`apply` requires it valid), and a caller given `false` stops there, with
    /// that error, instead of going on.
    pub fn validate(&self) -> (ok: bool)
        requires
            supported_dim(DIM),
        ensures
            ok == self.spec_valid(),
    {
        let (_, n, max_freq) = get_reso_details::<DIM>();
        let mode_ok = match self.mode {
            Mode::AUTONOMOUS(MsU16(integration_time_ms), HzU8(freq)) => {
                let a: u32 = integration_time_ms as u32 + 1;
                assert(a * (n as u32) <= 65536 * 4) by (nonlinear_arith)
                    requires
                        a <= 65536,
                        n <= 4,
                ;
                let b: u32 = a * (n as u32);
                assert(b * (freq as u32) <= 65536 * 4 * 255) by (nonlinear_arith)
                    requires
                        b <= 65536 * 4,
                        freq <= 255,
                ;
                let window: u32 = b * (freq as u32);
                2 <= integration_time_ms && integration_time_ms <= 1000 && window < 1000 && 1
                    <= freq && freq <= max_freq.0
            },
            Mode::CONTINUOUS => true,
        };
        let sharpener_ok = match self.sharpener_prc {
            Some(v) => 1 <= v && v <= 99,
            None => true,
        };
        mode_ok && sharpener_ok
    }

    /// The vendor calls that applying the configuration makes, in order: resolution
    /// first; integration time and frequency only in the autonomous mode; then mode,
    /// sharpener (0 when off) and target order.
    pub open spec fn spec_apply_calls(&self) -> Seq<UldCall> {
        let timing = match self.spec_mode() {
            Mode::AUTONOMOUS(ms, hz) => seq![
                UldCall::SetIntegrationTimeMs(ms.0 as u32),
                UldCall::SetRangingFrequencyHz(hz.0),
            ],
            Mode::CONTINUOUS => Seq::empty(),
        };
        let sharpener: u8 = match self.spec_sharpener_prc() {
            Some(v) => v,
            None => 0,
        };
        seq![UldCall::SetResolution(reso_details(DIM).0.spec_value())] + timing + seq![
            UldCall::SetRangingMode(self.spec_mode().spec_as_uld().spec_value()),
            UldCall::SetSharpenerPercent(sharpener),
            UldCall::SetTargetOrder(self.spec_target_order().spec_value()),
        ]
    }

    /// The vendor calls that apply this (valid) configuration; see `spec_apply_calls`.
    pub fn apply(&self) -> (calls: Vec<UldCall>)
        requires
            supported_dim(DIM),
            self.spec_valid(),
        ensures
            calls@ == self.spec_apply_calls(),
    {
        let (reso, _, _) = get_reso_details::<DIM>();
        let mut calls: Vec<UldCall> = Vec::new();
        calls.push(UldCall::SetResolution(reso.value()));
        if let Mode::AUTONOMOUS(MsU16(ms), HzU8(freq)) = self.mode {
            calls.push(UldCall::SetIntegrationTimeMs(ms as u32));
            calls.push(UldCall::SetRangingFrequencyHz(freq));
        }
        calls.push(UldCall::SetRangingMode(self.mode.as_uld().value()));
        let sharpener: u8 = match self.sharpener_prc {
            Some(v) => v,
            None => 0,
        };
        calls.push(UldCall::SetSharpenerPercent(sharpener));
        calls.push(UldCall::SetTargetOrder(self.target_order.value()));
        assert(calls@ =~= self.spec_apply_calls());
        calls
    }
}

impl<const DIM: usize> Default for RangingConfig<DIM> {
    /// The vendor's defaults: autonomous, 5 ms at 1 Hz, no sharpener, strongest first.
    fn default() -> (r: Self)
        ensures
            r.spec_mode() == Mode::AUTONOMOUS(MsU16(5), HzU8(1)),
            r.spec_sharpener_prc() == None::<u8>,
            r.spec_target_order() == TargetOrder::STRONGEST,
    {
        Self {
            sharpener_prc: None,
            target_order: TargetOrder::STRONGEST,
            mode: Mode::AUTONOMOUS(5u32.ms(), HzU8(1)),
        }
    }
}


/// The default configuration is accepted by the sensor, in both resolutions.
pub proof fn lemma_default_is_valid<const DIM: usize>(cfg: RangingConfig<DIM>)
    requires
        supported_dim(DIM),
        cfg.spec_mode() == Mode::AUTONOMOUS(MsU16(5), HzU8(1)),
        cfg.spec_sharpener_prc() == None::<u8>,
    ensures
        cfg.spec_valid(),
{
}

/// An 8x8 configuration is accepted exactly when: in the autonomous mode, the
/// integration time is 2..=1000 ms, its four integration windows plus 1 ms overhead
/// fit the period (`(t + 1) * 4 * f < 1000`) and the frequency is 1..=15 Hz; and the
/// sharpener is off or 1..=99 %.
pub proof fn law_validate_8x8(cfg: RangingConfig<8>)
    ensures
        cfg.spec_valid() <==> {
            &&& match cfg.spec_mode() {
                Mode::CONTINUOUS => true,
                Mode::AUTONOMOUS(ms, hz) => 2 <= ms.0 <= 1000 && (ms.0 + 1) * 4 * hz.0 < 1000 && 1
                    <= hz.0 <= 15,
            }
            &&& match cfg.spec_sharpener_prc() {
                Some(v) => 1 <= v <= 99,
                None => true,
            }
        },
{
}

/// A 4x4 configuration is accepted exactly when: in the autonomous mode, the
/// integration time is 2..=1000 ms, its one integration window plus 1 ms overhead fits
/// the period (`(t + 1) * 1 * f < 1000`) and the frequency is 1..=60 Hz; and the
/// sharpener is off or 1..=99 %.
pub proof fn law_validate_4x4(cfg: RangingConfig<4>)
    ensures
        cfg.spec_valid() <==> {
            &&& match cfg.spec_mode() {
                Mode::CONTINUOUS => true,
                Mode::AUTONOMOUS(ms, hz) => 2 <= ms.0 <= 1000 && (ms.0 + 1) * 1 * hz.0 < 1000 && 1
                    <= hz.0 <= 60,
            }
            &&& match cfg.spec_sharpener_prc() {
                Some(v) => 1 <= v <= 99,
                None => true,
            }
        },
{
}

/// The sharpener call that applying a configuration makes (the one before the target
/// order) carries the configured percentage, and 0 only when the sharpener is off.
pub proof fn law_apply_sharpener<const DIM: usize>(cfg: RangingConfig<DIM>, v: u8)
    ensures
        cfg.spec_sharpener_prc() == Some(v) ==> cfg.spec_apply_calls()[cfg.spec_apply_calls().len()
            - 2] == UldCall::SetSharpenerPercent(v),
        cfg.spec_sharpener_prc() is None ==> cfg.spec_apply_calls()[cfg.spec_apply_calls().len()
            - 2] == UldCall::SetSharpenerPercent(0),
{
}

/// Applying a configuration always sets the resolution first, and sets the
/// integration time and frequency exactly when the mode is autonomous.
pub proof fn lemma_apply_order<const DIM: usize>(cfg: RangingConfig<DIM>)
    ensures
        cfg.spec_apply_calls()[0] == UldCall::SetResolution(reso_details(DIM).0.spec_value()),
        cfg.spec_apply_calls().len() == (if cfg.spec_mode() is AUTONOMOUS {
            6int
        } else {
            4int
        }),
        cfg.spec_apply_calls().last() == UldCall::SetTargetOrder(
            cfg.spec_target_order().spec_value(),
        ),
{
}

} // verus!
verus! {

/// The vendor calls that start ranging with `cfg`: applying it, then starting.
pub open spec fn spec_start_calls<const DIM: usize>(cfg: RangingConfig<DIM>) -> Seq<UldCall> {
    cfg.spec_apply_calls().push(UldCall::StartRanging)
}

/// The vendor calls that start ranging with a valid `cfg`; see `spec_start_calls`.
pub fn start_calls<const DIM: usize>(cfg: &RangingConfig<DIM>) -> (calls: Vec<UldCall>)
    requires
        supported_dim(DIM),
        cfg.spec_valid(),
    ensures
        calls@ == spec_start_calls(*cfg),
{
    let mut calls = cfg.apply();
    calls.push(UldCall::StartRanging);
    calls
}

/// The sensor while it is ranging: the driver handle `H` of the idle state, and the
/// Rust-side store of the latest results.
#[allow(non_camel_case_types)]
pub struct State_Ranging<H, const DIM: usize, const TARGETS: usize> {
    outer_state: Option<H>,
    rbuf: ResultsData<DIM, TARGETS>,
}

impl<H, const DIM: usize, const TARGETS: usize> State_Ranging<H, DIM, TARGETS> {
    /// The driver handle, while the state holds it.
    pub closed spec fn spec_outer_state(&self) -> Option<H> {
        self.outer_state
    }

    /// The latest results.
    pub closed spec fn spec_results(&self) -> ResultsData<DIM, TARGETS> {
        self.rbuf
    }

    /// Enters ranging from the idle state `st`, once the start calls have run with
    /// `outcome`; a failed start gives its error.
    pub fn transition_from(st: H, outcome: Result<()>) -> (r: Result<Self>)
        ensures
            outcome is Err ==> r == Err::<Self, Error>(outcome->Err_0),
            outcome is Ok ==> (r matches Ok(s) && s.spec_outer_state() == Some(st)
                && s.spec_results().is_empty()),
    {
        match outcome {
            Ok(()) => Ok(Self { outer_state: Some(st), rbuf: ResultsData::empty() }),
            Err(e) => Err(e),
        }
    }

    /// Whether new results are ready, from the status and flag of the vendor query.
    pub fn is_ready(&self, status: u8, flag: u8) -> (r: Result<bool>)
        ensures
            r == (if status == ST_OK {
                Ok::<bool, Error>(flag != 0)
            } else {
                Err(Error(status))
            }),
    {
        ready_from(status, flag)
    }

    /// Takes in the results of one scan, fetched with `status`: on success the store
    /// holds them and the silicon temperature is returned; on failure the store is
    /// left as it was.
    pub fn get_data(&mut self, status: u8, raw: &RawResults) -> (r: Result<
        (&ResultsData<DIM, TARGETS>, TempC),
    >)
        requires
            raw.covers(DIM * DIM, TARGETS as int),
        ensures
            final(self).spec_outer_state() == old(self).spec_outer_state(),
            status == ST_OK ==> final(self).spec_results().fed_from(raw),
            status != ST_OK ==> final(self).spec_results() == old(self).spec_results(),
            status == ST_OK ==> (r matches Ok(p) && *p.0 == final(self).spec_results() && p.1
                == TempC(raw.silicon_temp_degc)),
            status != ST_OK ==> r == Err::<(&ResultsData<DIM, TARGETS>, TempC), Error>(
                Error(status),
            ),
    {
        if status == ST_OK {
            let temp_c = self.rbuf.feed(raw);
            Ok((&self.rbuf, temp_c))
        } else {
            Err(Error(status))
        }
    }

    /// Polling a board that was found ready, once its results were fetched with
    /// `status` at time `ts`: on success the store holds them and the poll gives a copy,
    /// with the silicon temperature and `ts`; on failure the poll gives the error.
    pub fn poll_fetched(&mut self, status: u8, raw: &RawResults, ts: u64) -> (r: Poll<DIM, TARGETS>)
        requires
            raw.covers(DIM * DIM, TARGETS as int),
        ensures
            final(self).spec_outer_state() == old(self).spec_outer_state(),
            status == ST_OK ==> final(self).spec_results().fed_from(raw) && r == Ok::<
                Option<(ResultsData<DIM, TARGETS>, TempC, u64)>,
                Error,
            >(Some((final(self).spec_results(), TempC(raw.silicon_temp_degc), ts))),
            status != ST_OK ==> final(self).spec_results() == old(self).spec_results() && r
                == Err::<Option<(ResultsData<DIM, TARGETS>, TempC, u64)>, Error>(Error(status)),
    {
        match self.get_data(status, raw) {
            Ok((res, temp)) => Ok(Some((res.copied(), temp, ts))),
            Err(e) => Err(e),
        }
    }

    /// Stops ranging, with the status of the vendor's stop call; on success the idle
    /// state is handed back.
    pub fn stop(self, status: u8) -> (r: Result<H>)
        requires
            self.spec_outer_state() is Some,
        ensures
            status == ST_OK ==> r == Ok::<H, Error>(self.spec_outer_state()->Some_0),
            status != ST_OK ==> r == Err::<H, Error>(Error(status)),
    {
        match self.outer_state {
            Some(outer) => match check(status) {
                Ok(()) => Ok(outer),
                Err(e) => Err(e),
            },
            None => Err(Error(status)),
        }
    }

    /// The driver handle, for making vendor calls.
    pub fn borrow_uld_mut(&mut self) -> (h: &mut H)
        requires
            old(self).spec_outer_state() is Some,
        ensures
            *h == old(self).spec_outer_state()->Some_0,
            final(self).spec_outer_state() == Some(*final(h)),
            final(self).spec_results() == old(self).spec_results(),
    {
        match &mut self.outer_state {
            Some(h) => h,
            None => vstd::pervasive::unreached(),
        }
    }
}

} // verus!
