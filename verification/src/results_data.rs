//! Results of one scan, turned from the vendor driver's flat vectors into
//! per-target matrices.
//!
//! The vendor layout is zone-major: for each zone (row by row, as the sensor looks
//! out), the values of its targets follow each other.
//!
//! `.meas` merges the distance, the target status and the number of detected targets
//! into one `Meas` value per zone and target, so that the application sees at once how
//! far a value can be trusted.
use vstd::prelude::*;

use crate::units::TempC;

verus! {

broadcast use vstd::array::group_array_axioms;

/// Why a measurement was marked an error.
#[derive(Copy, Clone, Debug)]
pub enum Comment {
    /// The target was not detected, but its status claims a (semi-)valid range.
    TargetStatusButNoTarget,
    /// Two detected targets of one zone are closer than the sensor can tell apart (600 mm).
    TargetsTooClose,
}

/// One measurement of one zone and target.
#[derive(Copy, Clone, Debug)]
pub enum Meas {
    /// Full confidence: target detected, status 5, positive distance.
    Valid(u16),
    /// Half confidence: target detected, status 6 or 9, positive distance.
    SemiValid(u16, u8),
    /// No confidence: any other combination; distance and status as given.
    Invalid(i16, u8),
    /// A glitch that the application can ignore or report.
    Error(i16, u8, Comment),
}

impl Meas {
    /// The target status that the measurement was made from.
    pub open spec fn spec_status(self) -> u8 {
        match self {
            Meas::Valid(_) => 5,
            Meas::SemiValid(_, st) => st,
            Meas::Invalid(_, st) => st,
            Meas::Error(_, st, _) => st,
        }
    }

    /// The target status that the measurement was made from.
    pub fn status(&self) -> (r: u8)
        ensures
            r == self.spec_status(),
    {
        match self {
            Meas::Valid(_) => 5,
            Meas::SemiValid(_, st) => *st,
            Meas::Invalid(_, st) => *st,
            Meas::Error(_, st, _) => *st,
        }
    }
}

/// The distance of a valid or semi-valid measurement.
pub open spec fn ranged_distance(m: Meas) -> Option<u16> {
    match m {
        Meas::Valid(x) => Some(x),
        Meas::SemiValid(x, _) => Some(x),
        _ => None,
    }
}

/// Minimum separation (mm) between two targets of one zone.
pub const MIN_TARGET_SEPARATION_MM: u16 = 600;

/// Whether two distances are closer than the sensor can separate.
pub open spec fn too_close(x: u16, x_prev: u16) -> bool {
    (if x >= x_prev { x - x_prev } else { x_prev - x }) < MIN_TARGET_SEPARATION_MM
}

/// How one raw value is classified: `target` is the target's index within its zone,
/// `detected` the number of targets that the sensor detected in that zone.
pub open spec fn classify(v: i16, st: u8, target: int, detected: u8) -> Meas {
    if (target as u8) < detected {
        if st == 5 && v > 0 {
            Meas::Valid(v as u16)
        } else if (st == 6 || st == 9) && v > 0 {
            Meas::SemiValid(v as u16, st)
        } else {
            Meas::Invalid(v, st)
        }
    } else if st == 5 || st == 6 || st == 9 {
        Meas::Error(v, st, Comment::TargetStatusButNoTarget)
    } else {
        Meas::Invalid(v, st)
    }
}

/// A (semi-)valid measurement that is too close to the previous target of the same
/// zone (itself (semi-)valid) becomes an error; any other stays as it is.
pub open spec fn separate(m: Meas, prev: Meas) -> Meas {
    match (ranged_distance(m), ranged_distance(prev)) {
        (Some(x), Some(x_prev)) => if too_close(x, x_prev) {
            Meas::Error(x as i16, m.spec_status(), Comment::TargetsTooClose)
        } else {
            m
        },
        _ => m,
    }
}

/// What the vendor driver hands back for one scan (its `ResultsData` C struct), as
/// flat vectors in zone-major order.
pub struct RawResults {
    pub silicon_temp_degc: i8,
    /// One per zone.
    pub ambient_per_spad: Vec<u32>,
    /// One per zone.
    pub nb_target_detected: Vec<u8>,
    /// One per zone.
    pub nb_spads_enabled: Vec<u32>,
    /// One per zone and target.
    pub signal_per_spad: Vec<u32>,
    /// One per zone and target.
    pub range_sigma_mm: Vec<u16>,
    /// One per zone and target.
    pub distance_mm: Vec<i16>,
    /// One per zone and target.
    pub reflectance: Vec<u8>,
    /// One per zone and target.
    pub target_status: Vec<u8>,
}

impl RawResults {
    /// The vectors hold at least `zones` zones of `targets` targets each.
    pub open spec fn covers(&self, zones: int, targets: int) -> bool {
        &&& self.ambient_per_spad@.len() >= zones
        &&& self.nb_target_detected@.len() >= zones
        &&& self.nb_spads_enabled@.len() >= zones
        &&& self.signal_per_spad@.len() >= zones * targets
        &&& self.range_sigma_mm@.len() >= zones * targets
        &&& self.distance_mm@.len() >= zones * targets
        &&& self.reflectance@.len() >= zones * targets
        &&& self.target_status@.len() >= zones * targets
    }

    /// The classification of target `t` of zone `z`, before targets are compared.
    pub open spec fn classified(&self, targets: int, z: int, t: int) -> Meas {
        classify(
            self.distance_mm@[z * targets + t],
            self.target_status@[z * targets + t],
            t,
            self.nb_target_detected@[z],
        )
    }

    /// The final measurement of target `t` of zone `z`: the targets of a zone are
    /// compared in order, each against the (final) previous one.
    pub open spec fn zone_meas(&self, targets: int, z: int, t: int) -> Meas
        decreases t,
    {
        if t <= 0 {
            self.classified(targets, z, 0)
        } else {
            separate(self.classified(targets, z, t), self.zone_meas(targets, z, t - 1))
        }
    }
}

/// Results data, in matrix form: `[row][column]` per zone, and `[target]` before that
/// for values that each target has.
#[derive(Clone, Debug)]
pub struct ResultsData<const DIM: usize, const TARGETS: usize> {
    pub ambient_per_spad: [[u32; DIM]; DIM],
    pub spads_enabled: [[u32; DIM]; DIM],
    pub meas: [[[Meas; DIM]; DIM]; TARGETS],
    pub range_sigma_mm: [[[u16; DIM]; DIM]; TARGETS],
    pub reflectance: [[[u8; DIM]; DIM]; TARGETS],
    pub signal_per_spad: [[[u32; DIM]; DIM]; TARGETS],
}

impl<const DIM: usize, const TARGETS: usize> ResultsData<DIM, TARGETS> {
    /// Zone `(r, c)` holds the raw zone metadata.
    pub open spec fn zone_from(&self, rr: &RawResults, r: int, c: int) -> bool {
        &&& self.ambient_per_spad[r][c] == rr.ambient_per_spad@[r * DIM + c]
        &&& self.spads_enabled[r][c] == rr.nb_spads_enabled@[r * DIM + c]
    }

    /// Target `t` of zone `(r, c)` holds the raw per-target values.
    pub open spec fn cell_from(&self, rr: &RawResults, t: int, r: int, c: int) -> bool {
        let i: int = (r * DIM + c) * TARGETS + t;
        &&& self.meas[t][r][c] == rr.zone_meas(TARGETS as int, r * DIM + c, t)
        &&& self.range_sigma_mm[t][r][c] == rr.range_sigma_mm@[i]
        &&& self.reflectance[t][r][c] == rr.reflectance@[i]
        &&& self.signal_per_spad[t][r][c] == rr.signal_per_spad@[i]
    }

    /// Every zone and target holds what `rr` gives for it.
    pub open spec fn fed_from(&self, rr: &RawResults) -> bool {
        &&& forall|r: int, c: int|
            0 <= r < DIM && 0 <= c < DIM ==> #[trigger] self.zone_from(rr, r, c)
        &&& forall|t: int, r: int, c: int|
            0 <= t < TARGETS && 0 <= r < DIM && 0 <= c < DIM ==> #[trigger] self.cell_from(
                rr,
                t,
                r,
                c,
            )
    }

    /// Nothing measured yet: zeros, and every measurement invalid with status 0
    /// ("not updated").
    pub open spec fn is_empty(&self) -> bool {
        &&& forall|r: int, c: int|
            0 <= r < DIM && 0 <= c < DIM ==> #[trigger] self.ambient_per_spad[r][c] == 0
                && self.spads_enabled[r][c] == 0
        &&& forall|t: int, r: int, c: int|
            0 <= t < TARGETS && 0 <= r < DIM && 0 <= c < DIM ==> #[trigger] self.meas[t][r][c]
                == Meas::Invalid(0, 0) && self.range_sigma_mm[t][r][c] == 0
                && self.reflectance[t][r][c] == 0 && self.signal_per_spad[t][r][c] == 0
    }

    /// A copy of these results.
    pub fn copied(&self) -> (r: Self)
        ensures
            r == *self,
    {
        ResultsData {
            ambient_per_spad: self.ambient_per_spad,
            spads_enabled: self.spads_enabled,
            meas: self.meas,
            range_sigma_mm: self.range_sigma_mm,
            reflectance: self.reflectance,
            signal_per_spad: self.signal_per_spad,
        }
    }

    /// A store with nothing measured yet; see `is_empty`.
    pub fn empty() -> (r: Self)
        ensures
            r.is_empty(),
    {
        ResultsData {
            ambient_per_spad: [[0u32; DIM]; DIM],
            spads_enabled: [[0u32; DIM]; DIM],
            meas: [[[Meas::Invalid(0, 0); DIM]; DIM]; TARGETS],
            range_sigma_mm: [[[0u16; DIM]; DIM]; TARGETS],
            reflectance: [[[0u8; DIM]; DIM]; TARGETS],
            signal_per_spad: [[[0u32; DIM]; DIM]; TARGETS],
        }
    }

    /// Builds the matrices from one scan; also returns the silicon temperature.
    pub fn from(raw_results: &RawResults) -> (r: (Self, TempC))
        requires
            raw_results.covers(DIM * DIM, TARGETS as int),
        ensures
            r.0.fed_from(raw_results),
            r.1 == TempC(raw_results.silicon_temp_degc),
    {
        let mut x = Self::empty();
        let temp = x.feed(raw_results);
        (x, temp)
    }

    /// Overwrites all matrices from one scan; returns the silicon temperature.
    pub fn feed(&mut self, rr: &RawResults) -> (temp: TempC)
        requires
            rr.covers(DIM * DIM, TARGETS as int),
        ensures
            final(self).fed_from(rr),
            temp == TempC(rr.silicon_temp_degc),
    {
        let zones_len: usize = rr.ambient_per_spad.len();
        let cells_len: usize = rr.distance_mm.len();
        assert(DIM * DIM <= zones_len && DIM * DIM * TARGETS <= cells_len);
        let mut r: usize = 0;
        while r < DIM
            invariant
                0 <= r <= DIM,
                DIM * DIM <= usize::MAX,
                DIM * DIM * TARGETS <= usize::MAX,
                rr.covers(DIM * DIM, TARGETS as int),
                forall|r2: int, c2: int|
                    0 <= r2 < r && 0 <= c2 < DIM ==> #[trigger] self.zone_from(rr, r2, c2),
                forall|t2: int, r2: int, c2: int|
                    0 <= t2 < TARGETS && 0 <= r2 < r && 0 <= c2 < DIM
                        ==> #[trigger] self.cell_from(rr, t2, r2, c2),
            decreases DIM - r,
        {
            let mut c: usize = 0;
            while c < DIM
                invariant
                    0 <= r < DIM,
                    0 <= c <= DIM,
                    DIM * DIM <= usize::MAX,
                    DIM * DIM * TARGETS <= usize::MAX,
                    rr.covers(DIM * DIM, TARGETS as int),
                    forall|r2: int, c2: int|
                        0 <= r2 < DIM && 0 <= c2 < DIM && (r2 < r || (r2 == r && c2 < c))
                            ==> #[trigger] self.zone_from(rr, r2, c2),
                    forall|t2: int, r2: int, c2: int|
                        0 <= t2 < TARGETS && 0 <= r2 < DIM && 0 <= c2 < DIM && (r2 < r || (r2
                            == r && c2 < c)) ==> #[trigger] self.cell_from(rr, t2, r2, c2),
                decreases DIM - c,
            {
                proof {
                    lemma_zone_index(r as int, c as int, DIM as int);
                }
                let z: usize = r * DIM + c;
                let ghost before = *self;
                self.ambient_per_spad[r][c] = rr.ambient_per_spad[z];
                self.spads_enabled[r][c] = rr.nb_spads_enabled[z];
                assert forall|r2: int, c2: int|
                    0 <= r2 < DIM && 0 <= c2 < DIM && (r2 < r || (r2 == r && c2 <= c))
                        implies #[trigger] self.zone_from(rr, r2, c2) by {
                    if r2 != r || c2 != c {
                        assert(before.zone_from(rr, r2, c2));
                    }
                }
                assert forall|t2: int, r2: int, c2: int|
                    0 <= t2 < TARGETS && 0 <= r2 < DIM && 0 <= c2 < DIM && (r2 < r || (r2 == r
                        && c2 < c)) implies #[trigger] self.cell_from(rr, t2, r2, c2) by {
                    assert(before.cell_from(rr, t2, r2, c2));
                }
                let detected: u8 = rr.nb_target_detected[z];
                let mut t: usize = 0;
                while t < TARGETS
                    invariant
                        0 <= r < DIM,
                        0 <= c < DIM,
                        0 <= t <= TARGETS,
                        z == r * DIM + c,
                        z < DIM * DIM,
                        DIM * DIM * TARGETS <= usize::MAX,
                        detected == rr.nb_target_detected@[z as int],
                        rr.covers(DIM * DIM, TARGETS as int),
                        forall|r2: int, c2: int|
                            0 <= r2 < DIM && 0 <= c2 < DIM && (r2 < r || (r2 == r && c2 <= c))
                                ==> #[trigger] self.zone_from(rr, r2, c2),
                        forall|t2: int, r2: int, c2: int|
                            0 <= t2 < TARGETS && 0 <= r2 < DIM && 0 <= c2 < DIM && (r2 < r || (
                            r2 == r && c2 < c) || (r2 == r && c2 == c && t2 < t))
                                ==> #[trigger] self.cell_from(rr, t2, r2, c2),
                    decreases TARGETS - t,
                {
                    proof {
                        lemma_cell_index(z as int, t as int, DIM as int, TARGETS as int);
                    }
                    let i2: usize = z * TARGETS + t;
                    let m0 = classify_exec(rr.distance_mm[i2], rr.target_status[i2], t, detected);
                    let m = if t > 0 {
                        assert(self.cell_from(rr, t - 1, r as int, c as int));
                        separate_exec(m0, self.meas[t - 1][r][c])
                    } else {
                        m0
                    };
                    assert(m == rr.zone_meas(TARGETS as int, z as int, t as int));
                    let ghost before = *self;
                    self.meas[t][r][c] = m;
                    self.range_sigma_mm[t][r][c] = rr.range_sigma_mm[i2];
                    self.reflectance[t][r][c] = rr.reflectance[i2];
                    self.signal_per_spad[t][r][c] = rr.signal_per_spad[i2];
                    assert(self.cell_from(rr, t as int, r as int, c as int));
                    assert forall|r2: int, c2: int|
                        0 <= r2 < DIM && 0 <= c2 < DIM && (r2 < r || (r2 == r && c2 <= c))
                            implies #[trigger] self.zone_from(rr, r2, c2) by {
                        assert(before.zone_from(rr, r2, c2));
                    }
                    assert forall|t2: int, r2: int, c2: int|
                        0 <= t2 < TARGETS && 0 <= r2 < DIM && 0 <= c2 < DIM && (r2 < r || (r2
                            == r && c2 < c) || (r2 == r && c2 == c && t2 <= t))
                            implies #[trigger] self.cell_from(rr, t2, r2, c2) by {
                        if t2 != t || r2 != r || c2 != c {
                            assert(before.cell_from(rr, t2, r2, c2));
                        }
                    }
                    t = t + 1;
                }
                c = c + 1;
            }
            r = r + 1;
        }
        TempC(rr.silicon_temp_degc)
    }
}

/// Zone `(r, c)` of a `dim` x `dim` grid has index `r * dim + c`, below `dim * dim`.
proof fn lemma_zone_index(r: int, c: int, dim: int)
    requires
        0 <= r < dim,
        0 <= c < dim,
    ensures
        0 <= r * dim <= r * dim + c < dim * dim,
{
    assert(r * dim + c < dim * dim) by (nonlinear_arith)
        requires
            0 <= r < dim,
            0 <= c < dim,
    ;
    assert(0 <= r * dim) by (nonlinear_arith)
        requires
            0 <= r,
            0 <= dim,
    ;
}

/// Target `t` of zone `z` has index `z * targets + t`, below `dim * dim * targets`.
proof fn lemma_cell_index(z: int, t: int, dim: int, targets: int)
    requires
        0 <= z < dim * dim,
        0 <= t < targets,
    ensures
        0 <= z * targets <= z * targets + t < dim * dim * targets,
{
    assert(z * targets + t < dim * dim * targets) by (nonlinear_arith)
        requires
            0 <= z < dim * dim,
            0 <= t < targets,
    ;
    assert(0 <= z * targets) by (nonlinear_arith)
        requires
            0 <= z,
            0 <= targets,
    ;
}

/// Classifies one raw value; see `classify`.
fn classify_exec(v: i16, st: u8, target: usize, detected: u8) -> (m: Meas)
    ensures
        m == classify(v, st, target as int, detected),
{
    if (target as u8) < detected {
        if st == 5 && v > 0 {
            Meas::Valid(v as u16)
        } else if (st == 6 || st == 9) && v > 0 {
            Meas::SemiValid(v as u16, st)
        } else {
            Meas::Invalid(v, st)
        }
    } else if st == 5 || st == 6 || st == 9 {
        Meas::Error(v, st, Comment::TargetStatusButNoTarget)
    } else {
        Meas::Invalid(v, st)
    }
}

/// Compares a measurement with the previous target of its zone; see `separate`.
fn separate_exec(m: Meas, prev: Meas) -> (r: Meas)
    ensures
        r == separate(m, prev),
{
    let x: u16 = match m {
        Meas::Valid(x) => x,
        Meas::SemiValid(x, _) => x,
        _ => {
            return m;
        },
    };
    let x_prev: u16 = match prev {
        Meas::Valid(x) => x,
        Meas::SemiValid(x, _) => x,
        _ => {
            return m;
        },
    };
    let gap: u16 = if x >= x_prev {
        x - x_prev
    } else {
        x_prev - x
    };
    if gap < MIN_TARGET_SEPARATION_MM {
        Meas::Error(x as i16, m.status(), Comment::TargetsTooClose)
    } else {
        m
    }
}

} // verus!
verus! {

/// Separating a measurement from the previous target never changes its target status.
pub proof fn lemma_separate_keeps_status(m: Meas, prev: Meas)
    ensures
        separate(m, prev).spec_status() == m.spec_status(),
{
}

/// Every measurement carries the raw target status of its zone and target: the
/// conversion never loses or alters a status.
pub proof fn lemma_status_preserved(rr: &RawResults, targets: int, z: int, t: int)
    requires
        0 <= t,
    ensures
        rr.zone_meas(targets, z, t).spec_status() == rr.target_status@[z * targets + t],
    decreases t,
{
    if t > 0 {
        lemma_separate_keeps_status(rr.classified(targets, z, t), rr.zone_meas(targets, z, t - 1));
    }
}

/// A measurement is `Valid(x)` only if its target was detected, its status is 5 and
/// its raw distance is the positive `x`.
pub proof fn lemma_valid_is_trusted(rr: &RawResults, targets: int, z: int, t: int)
    requires
        0 <= t,
        rr.zone_meas(targets, z, t) is Valid,
    ensures
        (t as u8) < rr.nb_target_detected@[z],
        rr.target_status@[z * targets + t] == 5,
        rr.distance_mm@[z * targets + t] > 0,
        rr.zone_meas(targets, z, t)->Valid_0 == rr.distance_mm@[z * targets + t],
{
}

/// After the comparison, no two consecutive targets of a zone are both (semi-)valid
/// and closer than the sensor can separate.
pub proof fn lemma_targets_separated(rr: &RawResults, targets: int, z: int, t: int)
    requires
        0 < t,
    ensures
        ({
            let m = rr.zone_meas(targets, z, t);
            let prev = rr.zone_meas(targets, z, t - 1);
            ranged_distance(m) is Some && ranged_distance(prev) is Some ==> !too_close(
                ranged_distance(m)->0,
                ranged_distance(prev)->0,
            )
        }),
{
}

} // verus!
verus! {

/// After feeding from a scan, every measurement carries the raw target status of its
/// zone and target.
pub proof fn lemma_fed_keeps_status<const DIM: usize, const TARGETS: usize>(
    d: ResultsData<DIM, TARGETS>,
    rr: &RawResults,
    t: int,
    r: int,
    c: int,
)
    requires
        d.fed_from(rr),
        0 <= t < TARGETS,
        0 <= r < DIM,
        0 <= c < DIM,
    ensures
        d.meas[t][r][c].spec_status() == rr.target_status@[(r * DIM + c) * TARGETS + t],
{
    assert(d.cell_from(rr, t, r, c));
    lemma_status_preserved(rr, TARGETS as int, r * DIM + c, t);
}

/// After feeding from a scan, no zone holds two consecutive (semi-)valid targets that
/// are closer than the sensor can separate.
pub proof fn lemma_fed_targets_separated<const DIM: usize, const TARGETS: usize>(
    d: ResultsData<DIM, TARGETS>,
    rr: &RawResults,
    t: int,
    r: int,
    c: int,
)
    requires
        d.fed_from(rr),
        0 < t < TARGETS,
        0 <= r < DIM,
        0 <= c < DIM,
    ensures
        ranged_distance(d.meas[t][r][c]) is Some && ranged_distance(d.meas[t - 1][r][c]) is Some
            ==> !too_close(
            ranged_distance(d.meas[t][r][c])->0,
            ranged_distance(d.meas[t - 1][r][c])->0,
        ),
{
    assert(d.cell_from(rr, t, r, c));
    assert(d.cell_from(rr, t - 1, r, c));
    lemma_targets_separated(rr, TARGETS as int, r * DIM + c, t);
}

/// After feeding from a scan, a `Valid` measurement is one the sensor fully trusts:
/// target detected, status 5, and its positive raw distance.
pub proof fn lemma_fed_valid_is_trusted<const DIM: usize, const TARGETS: usize>(
    d: ResultsData<DIM, TARGETS>,
    rr: &RawResults,
    t: int,
    r: int,
    c: int,
)
    requires
        d.fed_from(rr),
        0 <= t < TARGETS,
        0 <= r < DIM,
        0 <= c < DIM,
        d.meas[t][r][c] is Valid,
    ensures
        (t as u8) < rr.nb_target_detected@[r * DIM + c],
        rr.target_status@[(r * DIM + c) * TARGETS + t] == 5,
        rr.distance_mm@[(r * DIM + c) * TARGETS + t] > 0,
        d.meas[t][r][c]->Valid_0 == rr.distance_mm@[(r * DIM + c) * TARGETS + t],
{
    assert(d.cell_from(rr, t, r, c));
    lemma_valid_is_trusted(rr, TARGETS as int, r * DIM + c, t);
}


/// A measurement is `SemiValid(x, st)` only if its target was detected, its status
/// `st` is 6 or 9, and its raw distance is the positive `x`.
pub proof fn lemma_semivalid_is_trusted(rr: &RawResults, targets: int, z: int, t: int)
    requires
        0 <= t < 256,
        rr.zone_meas(targets, z, t) is SemiValid,
    ensures
        t < rr.nb_target_detected@[z],
        rr.target_status@[z * targets + t] == 6 || rr.target_status@[z * targets + t] == 9,
        rr.distance_mm@[z * targets + t] > 0,
        rr.zone_meas(targets, z, t)->SemiValid_0 == rr.distance_mm@[z * targets + t],
        rr.zone_meas(targets, z, t)->SemiValid_1 == rr.target_status@[z * targets + t],
{
}

/// A detected target whose status is none of 5, 6 and 9, or whose raw distance is not
/// positive, is `Invalid`, with its raw distance and status; a target that was not
/// detected is `Invalid` too, unless its status is 5, 6 or 9, which is an error.
pub proof fn lemma_unranged_targets(rr: &RawResults, targets: int, z: int, t: int)
    requires
        0 <= t < 256,
    ensures
        ({
            let v = rr.distance_mm@[z * targets + t];
            let st = rr.target_status@[z * targets + t];
            let m = rr.zone_meas(targets, z, t);
            &&& t < rr.nb_target_detected@[z] && st != 5 && st != 6 && st != 9 ==> m
                == Meas::Invalid(v, st)
            &&& t < rr.nb_target_detected@[z] && v <= 0 ==> m == Meas::Invalid(v, st)
            &&& t >= rr.nb_target_detected@[z] && st != 5 && st != 6 && st != 9 ==> m
                == Meas::Invalid(v, st)
            &&& t >= rr.nb_target_detected@[z] && (st == 5 || st == 6 || st == 9) ==> m
                == Meas::Error(v, st, Comment::TargetStatusButNoTarget)
        }),
{
}

/// After feeding from a scan, a `SemiValid(x, st)` measurement has a detected target,
/// status 6 or 9 and the positive raw distance `x`.
pub proof fn lemma_fed_semivalid_is_trusted<const DIM: usize, const TARGETS: usize>(
    d: ResultsData<DIM, TARGETS>,
    rr: &RawResults,
    t: int,
    r: int,
    c: int,
)
    requires
        d.fed_from(rr),
        0 <= t < TARGETS,
        TARGETS <= 256,
        0 <= r < DIM,
        0 <= c < DIM,
        d.meas[t][r][c] is SemiValid,
    ensures
        t < rr.nb_target_detected@[r * DIM + c],
        rr.target_status@[(r * DIM + c) * TARGETS + t] == 6 || rr.target_status@[(r * DIM + c)
            * TARGETS + t] == 9,
        rr.distance_mm@[(r * DIM + c) * TARGETS + t] > 0,
        d.meas[t][r][c]->SemiValid_0 == rr.distance_mm@[(r * DIM + c) * TARGETS + t],
        d.meas[t][r][c]->SemiValid_1 == rr.target_status@[(r * DIM + c) * TARGETS + t],
{
    assert(d.cell_from(rr, t, r, c));
    lemma_semivalid_is_trusted(rr, TARGETS as int, r * DIM + c, t);
}

/// After feeding from a scan, a detected target whose status is none of 5, 6 and 9 is
/// `Invalid`, with its raw distance and status.
pub proof fn lemma_fed_other_status_invalid<const DIM: usize, const TARGETS: usize>(
    d: ResultsData<DIM, TARGETS>,
    rr: &RawResults,
    t: int,
    r: int,
    c: int,
)
    requires
        d.fed_from(rr),
        0 <= t < TARGETS,
        TARGETS <= 256,
        0 <= r < DIM,
        0 <= c < DIM,
        t < rr.nb_target_detected@[r * DIM + c],
        rr.target_status@[(r * DIM + c) * TARGETS + t] != 5,
        rr.target_status@[(r * DIM + c) * TARGETS + t] != 6,
        rr.target_status@[(r * DIM + c) * TARGETS + t] != 9,
    ensures
        d.meas[t][r][c] == Meas::Invalid(
            rr.distance_mm@[(r * DIM + c) * TARGETS + t],
            rr.target_status@[(r * DIM + c) * TARGETS + t],
        ),
{
    assert(d.cell_from(rr, t, r, c));
    lemma_unranged_targets(rr, TARGETS as int, r * DIM + c, t);
}

} // verus!
