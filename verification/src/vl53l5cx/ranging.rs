//! How ranging is to be done on the single-chip interface.
//!
//! The vendor's demands are those of `crate::ranging`: integration time 2..=1000 ms;
//! integration times plus 1 ms below the ranging period (one integration time for
//! 4x4, four for 8x8); frequency 1..=60 Hz (4x4) or 1..=15 Hz (8x8); sharpener off or
//! 1..=99 %; resolution set before the frequency.
use vstd::prelude::*;

use crate::ranging::{RangingMode, TargetOrder, UldCall};
use super::units::{Hz, Ms};

verus! {

/// Ranging mode; the autonomous mode carries its integration time and frequency.
#[derive(Clone, Debug)]
#[allow(non_camel_case_types)]
pub enum Mode {
    CONTINUOUS,
    AUTONOMOUS(Ms, Hz),
}

impl Mode {
    /// The vendor's mode that this mode is.
    pub open spec fn spec_as_raw(self) -> RangingMode {
        match self {
            Mode::CONTINUOUS => RangingMode::CONTINUOUS,
            Mode::AUTONOMOUS(_, _) => RangingMode::AUTONOMOUS,
        }
    }

    /// The vendor's mode that this mode is.
    pub fn as_raw(&self) -> (r: RangingMode)
        ensures
            r == self.spec_as_raw(),
    {
        match self {
            Mode::CONTINUOUS => RangingMode::CONTINUOUS,
            Mode::AUTONOMOUS(_, _) => RangingMode::AUTONOMOUS,
        }
    }
}

/// The supported matrix sizes.
pub open spec fn supported_dim(dim: u8) -> bool {
    dim == 4 || dim == 8
}

/// Number of integration times per ranging period.
pub open spec fn integration_times(dim: u8) -> int {
    if dim == 4 {
        1
    } else {
        4
    }
}

/// Highest ranging frequency, in Hz.
pub open spec fn max_freq(dim: u8) -> int {
    if dim == 4 {
        60
    } else {
        15
    }
}

/// How a ranging session is set up, for a `DIM` x `DIM` matrix.
#[derive(Clone, Debug)]
pub struct RangingConfig<const DIM: u8> {
    mode: Mode,
    sharpener_prc: Option<u8>,
    target_order: TargetOrder,
}

impl<const DIM: u8> RangingConfig<DIM> {
    pub closed spec fn spec_mode(&self) -> Mode {
        self.mode
    }

    pub closed spec fn spec_sharpener_prc(&self) -> Option<u8> {
        self.sharpener_prc
    }

    pub closed spec fn spec_target_order(&self) -> TargetOrder {
        self.target_order
    }

    /// The configuration with another sharpener setting.
    pub fn with_sharpener_prc(self, v: Option<u8>) -> (r: Self)
        ensures
            r.spec_sharpener_prc() == v,
            r.spec_mode() == self.spec_mode(),
            r.spec_target_order() == self.spec_target_order(),
    {
        Self { sharpener_prc: v, ..self }
    }

    /// The configuration with another target order.
    pub fn with_target_order(self, order: TargetOrder) -> (r: Self)
        ensures
            r.spec_target_order() == order,
            r.spec_mode() == self.spec_mode(),
            r.spec_sharpener_prc() == self.spec_sharpener_prc(),
    {
        Self { target_order: order, ..self }
    }

    /// The configuration with another mode.
    pub fn with_mode(self, mode: Mode) -> (r: Self)
        ensures
            r.spec_mode() == mode,
            r.spec_sharpener_prc() == self.spec_sharpener_prc(),
            r.spec_target_order() == self.spec_target_order(),
    {
        Self { mode, ..self }
    }

    /// The sensor accepts this configuration; see the module documentation.
    pub open spec fn spec_valid(&self) -> bool {
        &&& match self.spec_mode() {
            Mode::CONTINUOUS => true,
            Mode::AUTONOMOUS(ms, hz) => {
                &&& 2 <= ms.0 <= 1000
                &&& (ms.0 + 1) * integration_times(DIM) * hz.0 < 1000
                &&& 1 <= hz.0 <= max_freq(DIM)
            },
        }
        &&& match self.spec_sharpener_prc() {
            Some(v) => 1 <= v <= 99,
            None => true,
        }
    }

    /// Whether the sensor accepts this configuration: integration time 2..=1000 ms,
    /// the integration windows plus 1 ms overhead within the period, the frequency
    /// within the resolution's range, and the sharpener off or 1..=99 %. A configuration
    /// it rejects is an error of the caller and must not be used: applying one is ruled
    /// out (`apply` requires it valid), and a caller given `false` stops there, with
    /// that error, instead of going on.
    pub fn validate(&self) -> (ok: bool)
        requires
            supported_dim(DIM),
        ensures
            ok == self.spec_valid(),
    {
        let n: u32 = if DIM == 4 {
            1
        } else {
            4
        };
        let max: u8 = if DIM == 4 {
            60
        } else {
            15
        };
        let mode_ok = match &self.mode {
            Mode::AUTONOMOUS(Ms(integration_time_ms), Hz(freq)) => {
                let a: u32 = *integration_time_ms as u32 + 1;
                assert(a * n <= 65536 * 4) by (nonlinear_arith)
                    requires
                        a <= 65536,
                        n <= 4,
                ;
                let b: u32 = a * n;
                assert(b * (*freq as u32) <= 65536 * 4 * 255) by (nonlinear_arith)
                    requires
                        b <= 65536 * 4,
                        *freq <= 255,
                ;
                let window: u32 = b * (*freq as u32);
                2 <= *integration_time_ms && *integration_time_ms <= 1000 && window < 1000 && 1
                    <= *freq && *freq <= max
            },
            Mode::CONTINUOUS => true,
        };
        let sharpener_ok = match self.sharpener_prc {
            Some(v) => 1 <= v && v <= 99,
            None => true,
        };
        mode_ok && sharpener_ok
    }

    /// The vendor calls that applying the configuration makes: the resolution (the
    /// number of zones) first; integration time and frequency only in the autonomous
    /// mode; then mode, sharpener (0 when off) and target order.
    pub open spec fn spec_apply_calls(&self) -> Seq<UldCall> {
        let timing = match self.spec_mode() {
            Mode::AUTONOMOUS(ms, hz) => seq![
                UldCall::SetIntegrationTimeMs(ms.0 as u32),
                UldCall::SetRangingFrequencyHz(hz.0),
            ],
            Mode::CONTINUOUS => Seq::empty(),
        };
        let sharpener: u8 = match self.spec_sharpener_prc() {
            Some(v) => v,
            None => 0,
        };
        seq![UldCall::SetResolution((DIM * DIM) as u8)] + timing + seq![
            UldCall::SetRangingMode(self.spec_mode().spec_as_raw().spec_value()),
            UldCall::SetSharpenerPercent(sharpener),
            UldCall::SetTargetOrder(self.spec_target_order().spec_value()),
        ]
    }

    /// The vendor calls that apply this (valid) configuration; see `spec_apply_calls`.
    pub fn apply(&self) -> (calls: Vec<UldCall>)
        requires
            supported_dim(DIM),
            self.spec_valid(),
        ensures
            calls@ == self.spec_apply_calls(),
    {
        let mut calls: Vec<UldCall> = Vec::new();
        calls.push(UldCall::SetResolution(DIM * DIM));
        if let Mode::AUTONOMOUS(Ms(ms), Hz(freq)) = &self.mode {
            calls.push(UldCall::SetIntegrationTimeMs(*ms as u32));
            calls.push(UldCall::SetRangingFrequencyHz(*freq));
        }
        calls.push(UldCall::SetRangingMode(self.mode.as_raw().value()));
        let sharpener: u8 = match self.sharpener_prc {
            Some(v) => v,
            None => 0,
        };
        calls.push(UldCall::SetSharpenerPercent(sharpener));
        calls.push(UldCall::SetTargetOrder(self.target_order.value()));
        assert(calls@ =~= self.spec_apply_calls());
        calls
    }
}

impl<const DIM: u8> Default for RangingConfig<DIM> {
    /// The vendor's defaults: autonomous, 5 ms at 1 Hz, no sharpener, strongest first.
    fn default() -> (r: Self)
        ensures
            r.spec_mode() == Mode::AUTONOMOUS(Ms(5), Hz(1)),
            r.spec_sharpener_prc() == None::<u8>,
            r.spec_target_order() == TargetOrder::STRONGEST,
    {
        Self { sharpener_prc: None, target_order: TargetOrder::STRONGEST, mode: Mode::AUTONOMOUS(Ms(5), Hz(1)) }
    }
}

/// An 8x8 configuration is accepted exactly when: in the autonomous mode, the
/// integration time is 2..=1000 ms, its four integration windows plus 1 ms overhead
/// fit the period (`(t + 1) * 4 * f < 1000`) and the frequency is 1..=15 Hz; and the
/// sharpener is off or 1..=99 %.
pub proof fn law_validate_8x8(cfg: RangingConfig<8>)
    ensures
        cfg.spec_valid() <==> {
            &&& match cfg.spec_mode() {
                Mode::CONTINUOUS => true,
                Mode::AUTONOMOUS(ms, hz) => 2 <= ms.0 <= 1000 && (ms.0 + 1) * 4 * hz.0 < 1000 && 1
                    <= hz.0 <= 15,
            }
            &&& match cfg.spec_sharpener_prc() {
                Some(v) => 1 <= v <= 99,
                None => true,
            }
        },
{
}

/// A 4x4 configuration is accepted exactly when: in the autonomous mode, the
/// integration time is 2..=1000 ms, its one integration window plus 1 ms overhead fits
/// the period (`(t + 1) * 1 * f < 1000`) and the frequency is 1..=60 Hz; and the
/// sharpener is off or 1..=99 %.
pub proof fn law_validate_4x4(cfg: RangingConfig<4>)
    ensures
        cfg.spec_valid() <==> {
            &&& match cfg.spec_mode() {
                Mode::CONTINUOUS => true,
                Mode::AUTONOMOUS(ms, hz) => 2 <= ms.0 <= 1000 && (ms.0 + 1) * 1 * hz.0 < 1000 && 1
                    <= hz.0 <= 60,
            }
            &&& match cfg.spec_sharpener_prc() {
                Some(v) => 1 <= v <= 99,
                None => true,
            }
        },
{
}

/// The sharpener call that applying a configuration makes (the one before the target
/// order) carries the configured percentage, and 0 only when the sharpener is off.
pub proof fn law_apply_sharpener<const DIM: u8>(cfg: RangingConfig<DIM>, v: u8)
    ensures
        cfg.spec_sharpener_prc() == Some(v) ==> cfg.spec_apply_calls()[cfg.spec_apply_calls().len()
            - 2] == UldCall::SetSharpenerPercent(v),
        cfg.spec_sharpener_prc() is None ==> cfg.spec_apply_calls()[cfg.spec_apply_calls().len()
            - 2] == UldCall::SetSharpenerPercent(0),
{
}

/// The default configuration is accepted by the sensor, in both resolutions.
pub proof fn lemma_default_is_valid<const DIM: u8>(cfg: RangingConfig<DIM>)
    requires
        supported_dim(DIM),
        cfg.spec_mode() == Mode::AUTONOMOUS(Ms(5), Hz(1)),
        cfg.spec_sharpener_prc() == None::<u8>,
    ensures
        cfg.spec_valid(),
{
}

} // verus!
