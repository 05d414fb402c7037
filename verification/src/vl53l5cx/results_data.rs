//! Results of one scan on the single-chip interface: each vendor vector becomes a
//! matrix of its own, with the target status made an enum.
use vstd::prelude::*;

use crate::results_data::RawResults;

verus! {

broadcast use vstd::array::group_array_axioms;

/// Target status of one zone and target (vendor codes 0..=13 and 255).
#[derive(Copy, Clone, Debug, PartialEq, Eq, Structural)]
pub enum TargetStatus {
    /// Fully valid: 5.
    Valid(u8),
    /// Half valid: 6 or 9.
    HalfValid(u8),
    /// No target: 255.
    Invalid,
    /// Any other code: rare for 0..=13, not expected above.
    Other(u8),
}

impl TargetStatus {
    /// The status that vendor code `v` stands for.
    pub open spec fn spec_from_uld(v: u8) -> TargetStatus {
        if v == 5 {
            TargetStatus::Valid(v)
        } else if v == 6 || v == 9 {
            TargetStatus::HalfValid(v)
        } else if v == 255 {
            TargetStatus::Invalid
        } else {
            TargetStatus::Other(v)
        }
    }

    /// The status that vendor code `v` stands for.
    pub fn from_uld(v: u8) -> (r: TargetStatus)
        ensures
            r == Self::spec_from_uld(v),
    {
        if v == 5 {
            TargetStatus::Valid(v)
        } else if v == 6 || v == 9 {
            TargetStatus::HalfValid(v)
        } else if v == 255 {
            TargetStatus::Invalid
        } else {
            TargetStatus::Other(v)
        }
    }

    /// The vendor code of the status.
    pub open spec fn spec_code(self) -> u8 {
        match self {
            TargetStatus::Valid(v) => v,
            TargetStatus::HalfValid(v) => v,
            TargetStatus::Invalid => 255,
            TargetStatus::Other(v) => v,
        }
    }
}

/// Every vendor code is kept: the status converts back to the code it came from.
pub proof fn lemma_target_status_keeps_code(v: u8)
    ensures
        TargetStatus::spec_from_uld(v).spec_code() == v,
{
}

/// Results data in matrix form: `[row][column]` per zone, and `[target]` before that
/// for per-target values.
#[derive(Clone, Debug)]
pub struct ResultsData<const DIM: usize, const TARGETS: usize> {
    pub ambient_per_spad: [[u32; DIM]; DIM],
    pub spads_enabled: [[u32; DIM]; DIM],
    pub targets_detected: [[u8; DIM]; DIM],
    pub target_status: [[[TargetStatus; DIM]; DIM]; TARGETS],
    pub distance_mm: [[[u16; DIM]; DIM]; TARGETS],
    pub range_sigma_mm: [[[u16; DIM]; DIM]; TARGETS],
    pub reflectance: [[[u8; DIM]; DIM]; TARGETS],
    pub signal_per_spad: [[[u32; DIM]; DIM]; TARGETS],
    /// Temperature of the sensor's silicon, in °C.
    pub silicon_temp_degc: i8,
}

/// The raw distances of the first `zones` zones of `targets` targets are not negative.
pub open spec fn distances_nonnegative(rr: &RawResults, zones: int, targets: int) -> bool {
    forall|i: int| 0 <= i < zones * targets ==> #[trigger] rr.distance_mm@[i] >= 0
}

impl<const DIM: usize, const TARGETS: usize> ResultsData<DIM, TARGETS> {
    /// Zone `(r, c)` holds the raw zone metadata.
    pub open spec fn zone_from(&self, rr: &RawResults, r: int, c: int) -> bool {
        &&& self.ambient_per_spad[r][c] == rr.ambient_per_spad@[r * DIM + c]
        &&& self.spads_enabled[r][c] == rr.nb_spads_enabled@[r * DIM + c]
        &&& self.targets_detected[r][c] == rr.nb_target_detected@[r * DIM + c]
    }

    /// Target `t` of zone `(r, c)` holds the raw per-target values.
    pub open spec fn cell_from(&self, rr: &RawResults, t: int, r: int, c: int) -> bool {
        let i: int = (r * DIM + c) * TARGETS + t;
        &&& self.target_status[t][r][c] == TargetStatus::spec_from_uld(rr.target_status@[i])
        &&& self.distance_mm[t][r][c] == rr.distance_mm@[i]
        &&& self.range_sigma_mm[t][r][c] == rr.range_sigma_mm@[i]
        &&& self.reflectance[t][r][c] == rr.reflectance@[i]
        &&& self.signal_per_spad[t][r][c] == rr.signal_per_spad@[i]
    }

    /// Every zone and target holds what `rr` gives for it.
    pub open spec fn fed_from(&self, rr: &RawResults) -> bool {
        &&& forall|r: int, c: int|
            0 <= r < DIM && 0 <= c < DIM ==> #[trigger] self.zone_from(rr, r, c)
        &&& forall|t: int, r: int, c: int|
            0 <= t < TARGETS && 0 <= r < DIM && 0 <= c < DIM ==> #[trigger] self.cell_from(
                rr,
                t,
                r,
                c,
            )
        &&& self.silicon_temp_degc == rr.silicon_temp_degc
    }

    /// Nothing measured yet: zeros, status `Other(0)` ("not updated").
    pub open spec fn is_empty(&self) -> bool {
        &&& forall|r: int, c: int|
            0 <= r < DIM && 0 <= c < DIM ==> #[trigger] self.ambient_per_spad[r][c] == 0
                && self.spads_enabled[r][c] == 0 && self.targets_detected[r][c] == 0
        &&& forall|t: int, r: int, c: int|
            0 <= t < TARGETS && 0 <= r < DIM && 0 <= c < DIM ==> #[trigger] self.target_status[t][r][c]
                == TargetStatus::Other(0) && self.distance_mm[t][r][c] == 0
                && self.range_sigma_mm[t][r][c] == 0 && self.reflectance[t][r][c] == 0
                && self.signal_per_spad[t][r][c] == 0
        &&& self.silicon_temp_degc == 0
    }

    /// An empty store, to be fed by each scan; see `is_empty`.
    pub fn empty() -> (r: Self)
        ensures
            r.is_empty(),
    {
        ResultsData {
            ambient_per_spad: [[0u32; DIM]; DIM],
            spads_enabled: [[0u32; DIM]; DIM],
            targets_detected: [[0u8; DIM]; DIM],
            target_status: [[[TargetStatus::Other(0); DIM]; DIM]; TARGETS],
            distance_mm: [[[0u16; DIM]; DIM]; TARGETS],
            range_sigma_mm: [[[0u16; DIM]; DIM]; TARGETS],
            reflectance: [[[0u8; DIM]; DIM]; TARGETS],
            signal_per_spad: [[[0u32; DIM]; DIM]; TARGETS],
            silicon_temp_degc: 0,
        }
    }

    /// Overwrites all matrices from one scan, whose distances must not be negative.
    pub fn feed(&mut self, rr: &RawResults)
        requires
            rr.covers(DIM * DIM, TARGETS as int),
            distances_nonnegative(rr, DIM * DIM, TARGETS as int),
        ensures
            final(self).fed_from(rr),
    {
        let zones_len: usize = rr.ambient_per_spad.len();
        let cells_len: usize = rr.distance_mm.len();
        assert(DIM * DIM <= zones_len && DIM * DIM * TARGETS <= cells_len);
        let mut r: usize = 0;
        while r < DIM
            invariant
                0 <= r <= DIM,
                DIM * DIM <= usize::MAX,
                DIM * DIM * TARGETS <= usize::MAX,
                rr.covers(DIM * DIM, TARGETS as int),
                distances_nonnegative(rr, DIM * DIM, TARGETS as int),
                forall|r2: int, c2: int|
                    0 <= r2 < r && 0 <= c2 < DIM ==> #[trigger] self.zone_from(rr, r2, c2),
                forall|t2: int, r2: int, c2: int|
                    0 <= t2 < TARGETS && 0 <= r2 < r && 0 <= c2 < DIM
                        ==> #[trigger] self.cell_from(rr, t2, r2, c2),
            decreases DIM - r,
        {
            let mut c: usize = 0;
            while c < DIM
                invariant
                    0 <= r < DIM,
                    0 <= c <= DIM,
                    DIM * DIM <= usize::MAX,
                    DIM * DIM * TARGETS <= usize::MAX,
                    rr.covers(DIM * DIM, TARGETS as int),
                    distances_nonnegative(rr, DIM * DIM, TARGETS as int),
                    forall|r2: int, c2: int|
                        0 <= r2 < DIM && 0 <= c2 < DIM && (r2 < r || (r2 == r && c2 < c))
                            ==> #[trigger] self.zone_from(rr, r2, c2),
                    forall|t2: int, r2: int, c2: int|
                        0 <= t2 < TARGETS && 0 <= r2 < DIM && 0 <= c2 < DIM && (r2 < r || (r2
                            == r && c2 < c)) ==> #[trigger] self.cell_from(rr, t2, r2, c2),
                decreases DIM - c,
            {
                proof {
                    lemma_zone_index(r as int, c as int, DIM as int);
                }
                let z: usize = r * DIM + c;
                let ghost before = *self;
                self.ambient_per_spad[r][c] = rr.ambient_per_spad[z];
                self.spads_enabled[r][c] = rr.nb_spads_enabled[z];
                self.targets_detected[r][c] = rr.nb_target_detected[z];
                assert forall|r2: int, c2: int|
                    0 <= r2 < DIM && 0 <= c2 < DIM && (r2 < r || (r2 == r && c2 <= c))
                        implies #[trigger] self.zone_from(rr, r2, c2) by {
                    if r2 != r || c2 != c {
                        assert(before.zone_from(rr, r2, c2));
                    }
                }
                assert forall|t2: int, r2: int, c2: int|
                    0 <= t2 < TARGETS && 0 <= r2 < DIM && 0 <= c2 < DIM && (r2 < r || (r2 == r
                        && c2 < c)) implies #[trigger] self.cell_from(rr, t2, r2, c2) by {
                    assert(before.cell_from(rr, t2, r2, c2));
                }
                let mut t: usize = 0;
                while t < TARGETS
                    invariant
                        0 <= r < DIM,
                        0 <= c < DIM,
                        0 <= t <= TARGETS,
                        z == r * DIM + c,
                        z < DIM * DIM,
                        DIM * DIM * TARGETS <= usize::MAX,
                        rr.covers(DIM * DIM, TARGETS as int),
                        distances_nonnegative(rr, DIM * DIM, TARGETS as int),
                        forall|r2: int, c2: int|
                            0 <= r2 < DIM && 0 <= c2 < DIM && (r2 < r || (r2 == r && c2 <= c))
                                ==> #[trigger] self.zone_from(rr, r2, c2),
                        forall|t2: int, r2: int, c2: int|
                            0 <= t2 < TARGETS && 0 <= r2 < DIM && 0 <= c2 < DIM && (r2 < r || (
                            r2 == r && c2 < c) || (r2 == r && c2 == c && t2 < t))
                                ==> #[trigger] self.cell_from(rr, t2, r2, c2),
                    decreases TARGETS - t,
                {
                    proof {
                        lemma_cell_index(z as int, t as int, DIM as int, TARGETS as int);
                    }
                    let i2: usize = z * TARGETS + t;
                    let v: i16 = rr.distance_mm[i2];
                    assert(v >= 0);
                    let ghost before = *self;
                    self.target_status[t][r][c] = TargetStatus::from_uld(rr.target_status[i2]);
                    self.distance_mm[t][r][c] = v as u16;
                    self.range_sigma_mm[t][r][c] = rr.range_sigma_mm[i2];
                    self.reflectance[t][r][c] = rr.reflectance[i2];
                    self.signal_per_spad[t][r][c] = rr.signal_per_spad[i2];
                    assert(self.cell_from(rr, t as int, r as int, c as int));
                    assert forall|r2: int, c2: int|
                        0 <= r2 < DIM && 0 <= c2 < DIM && (r2 < r || (r2 == r && c2 <= c))
                            implies #[trigger] self.zone_from(rr, r2, c2) by {
                        assert(before.zone_from(rr, r2, c2));
                    }
                    assert forall|t2: int, r2: int, c2: int|
                        0 <= t2 < TARGETS && 0 <= r2 < DIM && 0 <= c2 < DIM && (r2 < r || (r2
                            == r && c2 < c) || (r2 == r && c2 == c && t2 <= t))
                            implies #[trigger] self.cell_from(rr, t2, r2, c2) by {
                        if t2 != t || r2 != r || c2 != c {
                            assert(before.cell_from(rr, t2, r2, c2));
                        }
                    }
                    t = t + 1;
                }
                c = c + 1;
            }
            r = r + 1;
        }
        let ghost before = *self;
        self.silicon_temp_degc = rr.silicon_temp_degc;
        assert forall|r2: int, c2: int|
            0 <= r2 < DIM && 0 <= c2 < DIM implies #[trigger] self.zone_from(rr, r2, c2) by {
            assert(before.zone_from(rr, r2, c2));
        }
        assert forall|t2: int, r2: int, c2: int|
            0 <= t2 < TARGETS && 0 <= r2 < DIM && 0 <= c2 < DIM implies #[trigger] self.cell_from(
            rr,
            t2,
            r2,
            c2,
        ) by {
            assert(before.cell_from(rr, t2, r2, c2));
        }
    }
}

/// Zone `(r, c)` of a `dim` x `dim` grid has index `r * dim + c`, below `dim * dim`.
proof fn lemma_zone_index(r: int, c: int, dim: int)
    requires
        0 <= r < dim,
        0 <= c < dim,
    ensures
        0 <= r * dim <= r * dim + c < dim * dim,
{
    assert(r * dim + c < dim * dim) by (nonlinear_arith)
        requires
            0 <= r < dim,
            0 <= c < dim,
    ;
    assert(0 <= r * dim) by (nonlinear_arith)
        requires
            0 <= r,
            0 <= dim,
    ;
}

/// Target `t` of zone `z` has index `z * targets + t`, below `dim * dim * targets`.
proof fn lemma_cell_index(z: int, t: int, dim: int, targets: int)
    requires
        0 <= z < dim * dim,
        0 <= t < targets,
    ensures
        0 <= z * targets <= z * targets + t < dim * dim * targets,
{
    assert(z * targets + t < dim * dim * targets) by (nonlinear_arith)
        requires
            0 <= z < dim * dim,
            0 <= t < targets,
    ;
    assert(0 <= z * targets) by (nonlinear_arith)
        requires
            0 <= z,
            0 <= targets,
    ;
}

} // verus!
