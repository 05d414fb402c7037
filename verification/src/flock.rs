//! Several sensors on one I2C bus, sharing the default address: each board is
//! selected in turn by raising its `LPn` gate while it is used.
use vstd::prelude::*;

use crate::status::PowerMode;

verus! {

/// Results of the single-board driver layer: errors are the vendor status codes.
pub type UldResult<X> = core::result::Result<X, u8>;

/// An error of one board within the flock.
#[derive(Copy, Clone, Debug, PartialEq, Eq, Structural)]
pub struct Error {
    /// Index of the board that failed.
    pub sensor_id: usize,
    /// The vendor status of the failure.
    pub e: u8,
}

/// Results of the flock layer.
pub type Result<X> = core::result::Result<X, Error>;

/// Index of the first failed result, if any failed.
pub open spec fn first_error<X>(rs: Seq<UldResult<X>>) -> Option<int> {
    if exists|i: int| 0 <= i < rs.len() && rs[i] is Err {
        Some(
            choose|i: int|
                0 <= i < rs.len() && rs[i] is Err && forall|j: int| 0 <= j < i ==> rs[j] is Ok,
        )
    } else {
        None
    }
}

/// One result for the whole flock: the values when every board succeeded, else the
/// first board's error (values of other boards are lost).
pub open spec fn spec_join<X>(rs: Seq<UldResult<X>>) -> Result<Seq<X>> {
    match first_error(rs) {
        Some(i) => Err(Error { sensor_id: i as usize, e: rs[i]->Err_0 }),
        None => Ok(rs.map_values(|r: UldResult<X>| r->Ok_0)),
    }
}

/// A first failure exists whenever some result failed, and it is the earliest one.
proof fn lemma_first_error_exists<X>(rs: Seq<UldResult<X>>, k: int)
    requires
        0 <= k < rs.len(),
        rs[k] is Err,
        forall|j: int| 0 <= j < k ==> rs[j] is Ok,
    ensures
        first_error(rs) == Some(k),
{
    let i: int = choose|i: int|
        0 <= i < rs.len() && rs[i] is Err && forall|j: int| 0 <= j < i ==> rs[j] is Ok;
    assert(0 <= i < rs.len() && rs[i] is Err && forall|j: int| 0 <= j < i ==> rs[j] is Ok);
    if i < k {
        assert(rs[i] is Ok);
    }
    if k < i {
        assert(rs[k] is Ok);
    }
}

/// Turns the results of all boards into one result; see `spec_join`.
pub fn join_results<X>(rs: Vec<UldResult<X>>) -> (r: Result<Vec<X>>)
    ensures
        r matches Ok(xs) ==> spec_join(rs@) == Ok::<Seq<X>, Error>(xs@),
        r matches Err(e) ==> spec_join(rs@) == Err::<Seq<X>, Error>(e),
{
    let ghost all = rs@;
    let mut rest = rs;
    let mut xs: Vec<X> = Vec::new();
    let mut i: usize = 0;
    let n: usize = rest.len();
    while rest.len() > 0
        invariant
            n == all.len(),
            all == rs@,
            i + rest@.len() == n,
            rest@ == all.subrange(i as int, n as int),
            xs@.len() == i,
            forall|j: int| 0 <= j < i ==> #[trigger] all[j] is Ok && xs@[j] == all[j]->Ok_0,
        decreases rest@.len(),
    {
        let r = rest.remove(0);
        assert(r == all[i as int]);
        match r {
            Ok(x) => {
                xs.push(x);
                i = i + 1;
            },
            Err(e) => {
                proof {
                    lemma_first_error_exists(all, i as int);
                    assert(all[i as int]->Err_0 == e);
                    assert(spec_join(all) == Err::<Seq<X>, Error>(Error { sensor_id: i, e }));
                }
                return Err(Error { sensor_id: i, e });
            },
        }
    }
    proof {
        assert(forall|j: int| 0 <= j < all.len() ==> #[trigger] all[j] is Ok);
        assert(xs@ =~= all.map_values(|r: UldResult<X>| r->Ok_0));
    }
    Ok(xs)
}

/// Joining never reports a failure that did not happen: the result is `Ok` exactly
/// when every board succeeded.
pub proof fn lemma_join_ok_iff_all_ok<X>(rs: Seq<UldResult<X>>)
    ensures
        spec_join(rs) is Ok <==> forall|i: int| 0 <= i < rs.len() ==> rs[i] is Ok,
{
}

/// The board-select line of one board; raised while the board is used.
pub trait Gate {
    fn set_high(&mut self);

    fn set_low(&mut self);
}

/// Runs a board's step `f` on `v` while `gate` is that board's select line, raised:
/// the line is handed in so that the run is tied to the line's state at that moment.
pub fn run_gated<G: Gate, T, X, F: Fn(T) -> UldResult<X>>(gate: &G, f: &F, v: T) -> (x:
    UldResult<X>)
    requires
        call_requires(*f, (v,)),
    ensures
        call_ensures(*f, (v,), x),
{
    f(v)
}

/// As `run_gated`, for a step that borrows the board's handle.
pub fn run_gated_ref<G: Gate, T, X, F: Fn(&T) -> UldResult<X>>(gate: &G, f: &F, v: &T) -> (x:
    UldResult<X>)
    requires
        call_requires(*f, (v,)),
    ensures
        call_ensures(*f, (v,), x),
{
    f(v)
}

/// As `run_gated`, for a step that is also given an element `y` of another sequence.
pub fn run_gated_zip<G: Gate, Y, T, X, F: Fn(&Y, &T) -> UldResult<X>>(
    gate: &G,
    f: &F,
    y: &Y,
    v: &T,
) -> (x: UldResult<X>)
    requires
        call_requires(*f, (y, v)),
    ensures
        call_ensures(*f, (y, v), x),
{
    f(y, v)
}

/// What a flock does with its boards, in order: raising a board's select line, running
/// the step on that board, and lowering the line again.
pub enum GateEvent {
    Raised(nat),
    Ran(nat),
    Lowered(nat),
}

/// The events of boards `lo..hi`, each in turn selected alone while its step runs.
pub open spec fn gated_boards(lo: nat, hi: nat) -> Seq<GateEvent>
    decreases hi - lo,
{
    if lo >= hi {
        Seq::empty()
    } else {
        seq![GateEvent::Raised(lo), GateEvent::Ran(lo), GateEvent::Lowered(lo)] + gated_boards(
            (lo + 1) as nat,
            hi,
        )
    }
}

/// The events of one pass over `n` boards.
pub open spec fn gated_pass(n: nat) -> Seq<GateEvent> {
    gated_boards(0, n)
}

/// In a pass over boards `lo..hi`, board `lo + j` is raised, used and lowered at events
/// `3 j`, `3 j + 1` and `3 j + 2`: no other board's event comes between them, so each
/// board is used while its line alone is raised.
pub proof fn lemma_gated_boards(lo: nat, hi: nat)
    ensures
        gated_boards(lo, hi).len() == if lo < hi {
            3 * (hi - lo)
        } else {
            0
        },
        forall|j: int|
            0 <= j && lo + j < hi ==> {
                &&& #[trigger] gated_boards(lo, hi)[3 * j] == GateEvent::Raised((lo + j) as nat)
                &&& gated_boards(lo, hi)[3 * j + 1] == GateEvent::Ran((lo + j) as nat)
                &&& gated_boards(lo, hi)[3 * j + 2] == GateEvent::Lowered((lo + j) as nat)
            },
    decreases hi - lo,
{
    if lo < hi {
        lemma_gated_boards((lo + 1) as nat, hi);
        let rest = gated_boards((lo + 1) as nat, hi);
        let all = gated_boards(lo, hi);
        assert forall|j: int| 0 <= j && lo + j < hi implies {
            &&& #[trigger] all[3 * j] == GateEvent::Raised((lo + j) as nat)
            &&& all[3 * j + 1] == GateEvent::Ran((lo + j) as nat)
            &&& all[3 * j + 2] == GateEvent::Lowered((lo + j) as nat)
        } by {
            if j > 0 {
                assert(rest[3 * (j - 1)] == GateEvent::Raised(((lo + 1) + (j - 1)) as nat));
                assert(all[3 * j] == rest[3 * (j - 1)]);
                assert(all[3 * j + 1] == rest[3 * (j - 1) + 1]);
                assert(all[3 * j + 2] == rest[3 * (j - 1) + 2]);
            }
        }
    }
}

/// The boards' handles `T` (in some driver state) with their select lines, and the
/// record of what was done with them.
pub struct GateKeeper<T, G: Gate> {
    vs: Vec<T>,
    gates: Vec<G>,
    log: Ghost<Seq<GateEvent>>,
}

impl<T, G: Gate> GateKeeper<T, G> {
    #[verifier::type_invariant]
    spec fn paired(self) -> bool {
        self.vs@.len() == self.gates@.len()
    }

    /// The boards' handles, in order.
    pub closed spec fn spec_handles(&self) -> Seq<T> {
        self.vs@
    }

    /// The boards' select lines, in the order of the handles.
    pub closed spec fn spec_gates(&self) -> Seq<G> {
        self.gates@
    }

    /// What was done with the boards so far.
    pub closed spec fn spec_log(&self) -> Seq<GateEvent> {
        self.log@
    }

    /// Number of boards.
    pub closed spec fn spec_len(&self) -> nat {
        self.vs@.len()
    }

    /// Pairs each handle with the select line at the same position.
    pub fn new(vs: Vec<T>, gates: Vec<G>) -> (r: Self)
        requires
            vs@.len() == gates@.len(),
        ensures
            r.spec_handles() == vs@,
            r.spec_gates() == gates@,
            r.spec_len() == vs@.len(),
            r.spec_log() == Seq::<GateEvent>::empty(),
    {
        GateKeeper { vs, gates, log: Ghost(Seq::empty()) }
    }

    /// Every handle has its select line.
    fn check_paired(&self)
        ensures
            self.vs@.len() == self.gates@.len(),
    {
        proof {
            use_type_invariant(self);
        }
    }

    /// Number of boards.
    pub fn len(&self) -> (n: usize)
        ensures
            n == self.spec_len(),
    {
        self.vs.len()
    }

    /// The part of `map` from board `i` on: the handles left are `vs`, and `gates` holds
    /// the select lines of all boards.
    pub fn map_from<X, F: Fn(T) -> UldResult<X>>(
        vs: &mut Vec<T>,
        gates: &mut Vec<G>,
        i: usize,
        f: &F,
        rs: &mut Vec<UldResult<X>>,
        log: &mut Ghost<Seq<GateEvent>>,
        Ghost(handles): Ghost<Seq<T>>,
    )
        requires
            i <= handles.len(),
            old(gates)@.len() == handles.len(),
            old(vs)@ == handles.subrange(i as int, handles.len() as int),
            old(rs)@.len() == i,
            forall|j: int| i <= j < handles.len() ==> call_requires(*f, (#[trigger] handles[j],)),
        ensures
            final(gates)@.len() == old(gates)@.len(),
            forall|j: int| 0 <= j < i ==> #[trigger] final(gates)@[j] == old(gates)@[j],
            forall|j: int|
                #![trigger old(gates)@[j]]
                i <= j < handles.len() ==> exists|qh: &mut G, ql: &mut G|
                    #![trigger call_ensures(G::set_high, (qh,), ()), call_ensures(G::set_low, (ql,), ())]
                    *qh == old(gates)@[j] && call_ensures(G::set_high, (qh,), ())
                        && call_ensures(run_gated::<G, T, X, F>, (&*final(qh), f, handles[j]), final(rs)@[j])
                        && *ql == *final(qh) && call_ensures(G::set_low, (ql,), ())
                        && *final(ql) == final(gates)@[j],
            final(log)@ == old(log)@ + gated_boards(i as nat, handles.len()),
            final(rs)@.len() == handles.len(),
            forall|j: int| 0 <= j < i ==> #[trigger] final(rs)@[j] == old(rs)@[j],
            forall|j: int|
                i <= j < handles.len() ==> call_ensures(*f, (handles[j],), #[trigger] final(rs)@[j]),
        decreases handles.len() - i,
    {
        if i < gates.len() {
            let next: usize = i + 1;
            let v = vs.remove(0);
            assert(v == handles[i as int]);
            gates[i].set_high();
            let x = run_gated(&gates[i], f, v);
            gates[i].set_low();
            proof {
                let step = seq![
                    GateEvent::Raised(i as nat),
                    GateEvent::Ran(i as nat),
                    GateEvent::Lowered(i as nat),
                ];
                assert(gated_boards(i as nat, handles.len()) == step + gated_boards(
                    (i + 1) as nat,
                    handles.len(),
                ));
                log@ = log@ + step;
            }
            rs.push(x);
            let ghost w = gates@;
            let ghost log1 = log@;
            assert(exists|qh: &mut G, ql: &mut G|
                #![trigger call_ensures(G::set_high, (qh,), ()), call_ensures(G::set_low, (ql,), ())]
                *qh == old(gates)@[i as int] && call_ensures(G::set_high, (qh,), ())
                    && call_ensures(run_gated::<G, T, X, F>, (&*final(qh), f, handles[i as int]), x)
                        && *ql == *final(qh) && call_ensures(G::set_low, (ql,), ())
                    && *final(ql) == w[i as int]);
            assert(vs@ =~= handles.subrange(next as int, handles.len() as int));
            Self::map_from(vs, gates, next, f, rs, log, Ghost(handles));
            assert forall|j: int|
                #![trigger old(gates)@[j]]
                i <= j < handles.len() implies exists|qh: &mut G, ql: &mut G|
                    #![trigger call_ensures(G::set_high, (qh,), ()), call_ensures(G::set_low, (ql,), ())]
                    *qh == old(gates)@[j] && call_ensures(G::set_high, (qh,), ())
                        && call_ensures(run_gated::<G, T, X, F>, (&*final(qh), f, handles[j]), rs@[j])
                        && *ql == *final(qh) && call_ensures(G::set_low, (ql,), ())
                        && *final(ql) == gates@[j] by {
                if j > i {
                    assert(w[j] == old(gates)@[j]);
                }
            }
            assert(log@ =~= old(log)@ + gated_boards(i as nat, handles.len()));
        } else {
            assert(log@ =~= old(log)@ + gated_boards(i as nat, handles.len()));
        }
    }

    /// Moves every board to a new state with `f`, each alone with its gate raised
    /// (raised before, lowered after); gives either all new handles, with the same
    /// gates in the same order, or the first failure.
    pub fn map<X, F: Fn(T) -> UldResult<X>>(self, f: F) -> (r: Result<GateKeeper<X, G>>)
        requires
            forall|i: int| 0 <= i < self.spec_len() ==> call_requires(f, (#[trigger] self.spec_handles()[i],)),
        ensures
            exists|rs: Seq<UldResult<X>>|
                {
                    &&& rs.len() == self.spec_len()
                    &&& forall|i: int|
                        0 <= i < rs.len() ==> call_ensures(f, (self.spec_handles()[i],), #[trigger] rs[i])
                    &&& match r {
                        Ok(g) => spec_join(rs) == Ok::<Seq<X>, Error>(g.spec_handles()),
                        Err(e) => spec_join(rs) == Err::<Seq<X>, Error>(e),
                    }
                },
            r matches Ok(g) ==> {
                &&& g.spec_gates().len() == self.spec_len()
                &&& g.spec_log() == self.spec_log() + gated_pass(self.spec_len())
            },
            exists|
                vq: &mut Vec<T>,
                gq: &mut Vec<G>,
                rq: &mut Vec<UldResult<X>>,
                lq: &mut Ghost<Seq<GateEvent>>,
            |
                #![trigger call_ensures(Self::map_from::<X, F>, (vq, gq, 0usize, &f, rq, lq, Ghost(self.spec_handles())), ())]
                (*vq)@ == self.spec_handles() && (*gq)@ == self.spec_gates() && (*rq)@.len() == 0
                    && (*lq)@ == self.spec_log()
                    && call_ensures(Self::map_from::<X, F>, (vq, gq, 0usize, &f, rq, lq, Ghost(self.spec_handles())), ())
                    && match r {
                    Ok(g) => (*final(gq))@ == g.spec_gates() && (*final(lq))@ == g.spec_log(),
                    Err(e) => spec_join((*final(rq))@) == Err::<Seq<X>, Error>(e),
                },
    {
        proof {
            use_type_invariant(&self);
        }
        let ghost handles = self.vs@;
        let ghost gates0 = self.gates@;
        let GateKeeper { vs, gates, log } = self;
        let mut vs = vs;
        let mut gates = gates;
        let mut log = log;
        let mut rs: Vec<UldResult<X>> = Vec::new();
        assert(vs@ =~= handles.subrange(0, handles.len() as int));
        assert forall|j: int| 0 <= j < handles.len() implies call_requires(
            f,
            (#[trigger] handles[j],),
        ) by {
            assert(handles[j] == self.spec_handles()[j]);
        }
        let ghost gb = gates@;
        assert(vs@ =~= handles);
        assert(handles == self.spec_handles());
        assert(gb == self.spec_gates());
        Self::map_from(&mut vs, &mut gates, 0, &f, &mut rs, &mut log, Ghost(handles));
        let ghost all = rs@;
        let ghost gb2 = gates@;
        match join_results(rs) {
            Ok(xs) => {
                assert(xs@.len() == all.len());
                assert(gb == gates0);
                let g = GateKeeper { vs: xs, gates, log };
                assert(g.spec_gates() == gb2);
                assert(g.spec_gates().len() == self.spec_len());
                assert(g.spec_log() == self.spec_log() + gated_pass(self.spec_len()));
                Ok(g)
            },
            Err(e) => Err(e),
        }
    }
}

impl<T, G: Gate> GateKeeper<T, G> {
    /// The part of `with_each` from board `i` on.
    pub fn with_each_from<X, F: Fn(&T) -> UldResult<X>>(
        &mut self,
        f: &F,
        i: usize,
        rs: &mut Vec<UldResult<X>>,
    )
        requires
            old(self).spec_handles().len() == old(self).spec_gates().len(),
            i <= old(self).spec_handles().len(),
            old(rs)@.len() == i,
            forall|j: int|
                i <= j < old(self).spec_handles().len() ==> call_requires(*f, (&#[trigger] old(self).spec_handles()[j],)),
        ensures
            final(self).spec_handles() == old(self).spec_handles(),
            final(self).spec_gates().len() == old(self).spec_gates().len(),
            forall|j: int| 0 <= j < i ==> #[trigger] final(self).spec_gates()[j] == old(self).spec_gates()[j],
            forall|j: int|
                #![trigger old(self).spec_gates()[j]]
                i <= j < old(self).spec_gates().len() ==> exists|qh: &mut G, ql: &mut G|
                    #![trigger call_ensures(G::set_high, (qh,), ()), call_ensures(G::set_low, (ql,), ())]
                    *qh == old(self).spec_gates()[j] && call_ensures(G::set_high, (qh,), ())
                        && call_ensures(run_gated_ref::<G, T, X, F>, (&*final(qh), f, &old(self).spec_handles()[j]), final(rs)@[j])
                        && *ql == *final(qh) && call_ensures(G::set_low, (ql,), ())
                        && *final(ql) == final(self).spec_gates()[j],
            final(self).spec_log() == old(self).spec_log() + gated_boards(i as nat, old(self).spec_handles().len()),
            final(rs)@.len() == old(self).spec_handles().len(),
            forall|j: int| 0 <= j < i ==> #[trigger] final(rs)@[j] == old(rs)@[j],
            forall|j: int|
                i <= j < old(self).spec_handles().len() ==> call_ensures(
                    *f,
                    (&old(self).spec_handles()[j],),
                    #[trigger] final(rs)@[j],
                ),
        decreases old(self).spec_handles().len() - i,
    {
        if i < self.vs.len() {
            self.gates[i].set_high();
            let x = run_gated_ref(&self.gates[i], f, &self.vs[i]);
            self.gates[i].set_low();
            proof {
                let step = seq![
                    GateEvent::Raised(i as nat),
                    GateEvent::Ran(i as nat),
                    GateEvent::Lowered(i as nat),
                ];
                assert(gated_boards(i as nat, self.vs@.len()) == step + gated_boards(
                    (i + 1) as nat,
                    self.vs@.len(),
                ));
                self.log@ = self.log@ + step;
            }
            rs.push(x);
            let ghost w = self.gates@;
            let ghost sw = *self;
            assert(exists|qh: &mut G, ql: &mut G|
                #![trigger call_ensures(G::set_high, (qh,), ()), call_ensures(G::set_low, (ql,), ())]
                *qh == old(self).gates@[i as int] && call_ensures(G::set_high, (qh,), ())
                    && call_ensures(run_gated_ref::<G, T, X, F>, (&*final(qh), f, &old(self).vs@[i as int]), x)
                        && *ql == *final(qh) && call_ensures(G::set_low, (ql,), ())
                    && *final(ql) == w[i as int]);
            self.with_each_from(f, i + 1, rs);
            assert forall|j: int|
                #![trigger old(self).gates@[j]]
                i <= j < old(self).gates@.len() implies exists|qh: &mut G, ql: &mut G|
                    #![trigger call_ensures(G::set_high, (qh,), ()), call_ensures(G::set_low, (ql,), ())]
                    *qh == old(self).gates@[j] && call_ensures(G::set_high, (qh,), ())
                        && call_ensures(run_gated_ref::<G, T, X, F>, (&*final(qh), f, &old(self).vs@[j]), rs@[j])
                        && *ql == *final(qh) && call_ensures(G::set_low, (ql,), ())
                        && *final(ql) == self.gates@[j] by {
                if j > i {
                    assert(sw.spec_gates()[j] == old(self).spec_gates()[j]);
                }
            }
            assert(self.log@ =~= old(self).log@ + gated_boards(i as nat, old(self).vs@.len()));
        } else {
            assert(self.log@ =~= old(self).log@ + gated_boards(i as nat, old(self).vs@.len()));
        }
    }

    /// Runs `f` on every board in turn, each alone with its gate raised (raised before,
    /// lowered after); gives all values or the first failure.
    pub fn with_each<X, F: Fn(&T) -> UldResult<X>>(&mut self, f: F) -> (r: Result<Vec<X>>)
        requires
            forall|i: int|
                0 <= i < old(self).spec_len() ==> call_requires(
                    f,
                    (&#[trigger] old(self).spec_handles()[i],),
                ),
        ensures
            final(self).spec_handles() == old(self).spec_handles(),
            final(self).spec_gates().len() == old(self).spec_gates().len(),
            final(self).spec_log() == old(self).spec_log() + gated_pass(old(self).spec_len()),
            exists|q: &mut Self, rq: &mut Vec<UldResult<X>>|
                #![trigger call_ensures(Self::with_each_from::<X, F>, (q, &f, 0usize, rq), ())]
                *q == *old(self) && *final(q) == *final(self) && (*rq)@.len() == 0
                    && call_ensures(Self::with_each_from::<X, F>, (q, &f, 0usize, rq), ()),
            exists|rs: Seq<UldResult<X>>|
                {
                    &&& rs.len() == old(self).spec_len()
                    &&& forall|i: int|
                        0 <= i < rs.len() ==> call_ensures(
                            f,
                            (&old(self).spec_handles()[i],),
                            #[trigger] rs[i],
                        )
                    &&& match r {
                        Ok(xs) => spec_join(rs) == Ok::<Seq<X>, Error>(xs@),
                        Err(e) => spec_join(rs) == Err::<Seq<X>, Error>(e),
                    }
                },
    {
        self.check_paired();
        let mut rs: Vec<UldResult<X>> = Vec::new();
        let ghost gb = self.gates@;
        let ghost vb = self.vs@;
        assert forall|j: int| 0 <= j < vb.len() implies call_requires(f, (&#[trigger] vb[j],)) by {
            assert(vb[j] == old(self).spec_handles()[j]);
        }
        self.with_each_from(&f, 0, &mut rs);
        let r = join_results(rs);
        r
    }

    /// The part of `with_each_zip` from board `i` on.
    pub fn with_each_zip_from<X, Y, F: Fn(&Y, &T) -> UldResult<X>>(
        &mut self,
        ys: &Vec<Y>,
        f: &F,
        i: usize,
        rs: &mut Vec<UldResult<X>>,
    )
        requires
            old(self).spec_handles().len() == old(self).spec_gates().len(),
            ys@.len() == old(self).spec_handles().len(),
            i <= old(self).spec_handles().len(),
            old(rs)@.len() == i,
            forall|j: int|
                i <= j < old(self).spec_handles().len() ==> call_requires(*f, (&ys@[j], &#[trigger] old(self).spec_handles()[j])),
        ensures
            final(self).spec_handles() == old(self).spec_handles(),
            final(self).spec_gates().len() == old(self).spec_gates().len(),
            forall|j: int| 0 <= j < i ==> #[trigger] final(self).spec_gates()[j] == old(self).spec_gates()[j],
            forall|j: int|
                #![trigger old(self).spec_gates()[j]]
                i <= j < old(self).spec_gates().len() ==> exists|qh: &mut G, ql: &mut G|
                    #![trigger call_ensures(G::set_high, (qh,), ()), call_ensures(G::set_low, (ql,), ())]
                    *qh == old(self).spec_gates()[j] && call_ensures(G::set_high, (qh,), ())
                        && call_ensures(run_gated_zip::<G, Y, T, X, F>, (&*final(qh), f, &ys@[j], &old(self).spec_handles()[j]), final(rs)@[j])
                        && *ql == *final(qh) && call_ensures(G::set_low, (ql,), ())
                        && *final(ql) == final(self).spec_gates()[j],
            final(self).spec_log() == old(self).spec_log() + gated_boards(i as nat, old(self).spec_handles().len()),
            final(rs)@.len() == old(self).spec_handles().len(),
            forall|j: int| 0 <= j < i ==> #[trigger] final(rs)@[j] == old(rs)@[j],
            forall|j: int|
                i <= j < old(self).spec_handles().len() ==> call_ensures(
                    *f,
                    (&ys@[j], &old(self).spec_handles()[j]),
                    #[trigger] final(rs)@[j],
                ),
        decreases old(self).spec_handles().len() - i,
    {
        if i < self.vs.len() {
            self.gates[i].set_high();
            let x = run_gated_zip(&self.gates[i], f, &ys[i], &self.vs[i]);
            self.gates[i].set_low();
            proof {
                let step = seq![
                    GateEvent::Raised(i as nat),
                    GateEvent::Ran(i as nat),
                    GateEvent::Lowered(i as nat),
                ];
                assert(gated_boards(i as nat, self.vs@.len()) == step + gated_boards(
                    (i + 1) as nat,
                    self.vs@.len(),
                ));
                self.log@ = self.log@ + step;
            }
            rs.push(x);
            let ghost w = self.gates@;
            let ghost sw = *self;
            assert(exists|qh: &mut G, ql: &mut G|
                #![trigger call_ensures(G::set_high, (qh,), ()), call_ensures(G::set_low, (ql,), ())]
                *qh == old(self).gates@[i as int] && call_ensures(G::set_high, (qh,), ())
                    && call_ensures(run_gated_zip::<G, Y, T, X, F>, (&*final(qh), f, &ys@[i as int], &old(self).vs@[i as int]), x)
                        && *ql == *final(qh) && call_ensures(G::set_low, (ql,), ())
                    && *final(ql) == w[i as int]);
            self.with_each_zip_from(ys, f, i + 1, rs);
            assert forall|j: int|
                #![trigger old(self).gates@[j]]
                i <= j < old(self).gates@.len() implies exists|qh: &mut G, ql: &mut G|
                    #![trigger call_ensures(G::set_high, (qh,), ()), call_ensures(G::set_low, (ql,), ())]
                    *qh == old(self).gates@[j] && call_ensures(G::set_high, (qh,), ())
                        && call_ensures(run_gated_zip::<G, Y, T, X, F>, (&*final(qh), f, &ys@[j], &old(self).vs@[j]), rs@[j])
                        && *ql == *final(qh) && call_ensures(G::set_low, (ql,), ())
                        && *final(ql) == self.gates@[j] by {
                if j > i {
                    assert(sw.spec_gates()[j] == old(self).spec_gates()[j]);
                }
            }
            assert(self.log@ =~= old(self).log@ + gated_boards(i as nat, old(self).vs@.len()));
        } else {
            assert(self.log@ =~= old(self).log@ + gated_boards(i as nat, old(self).vs@.len()));
        }
    }

    /// In a zipped pass over the boards (as `with_each_zip` and `set_power_mode` make),
    /// board `j`'s step runs with board `j`'s line in the state that raising it
    /// produced, and the line is lowered from that same state: the step runs after the
    /// raise and before the lowering, and what it gives is the pass's `j`-th result.
    pub proof fn law_zip_step_between_raise_and_lower<X, Y, F: Fn(&Y, &T) -> UldResult<X>>(
        pass: (&mut Self, &Vec<Y>, &F, usize, &mut Vec<UldResult<X>>),
        j: int,
    )
        requires
            call_ensures(Self::with_each_zip_from::<X, Y, F>, pass, ()),
            pass.3 == 0,
            0 <= j < mut_ref_current(pass.0).spec_gates().len(),
        ensures
            exists|qh: &mut G, ql: &mut G|
                #![trigger call_ensures(G::set_high, (qh,), ()), call_ensures(G::set_low, (ql,), ())]
                *qh == mut_ref_current(pass.0).spec_gates()[j] && call_ensures(G::set_high, (qh,), ())
                    && call_ensures(
                    run_gated_zip::<G, Y, T, X, F>,
                    (&*final(qh), pass.2, &pass.1@[j], &mut_ref_current(pass.0).spec_handles()[j]),
                    mut_ref_future(pass.4)@[j],
                ) && *ql == *final(qh) && call_ensures(G::set_low, (ql,), ())
                    && *final(ql) == mut_ref_future(pass.0).spec_gates()[j],
    {
        let before = mut_ref_current(pass.0).spec_gates()[j];
        let after = mut_ref_future(pass.0).spec_gates()[j];
    }

    /// `with_each_zip` runs each board's step between raising and lowering that board's
    /// line: for board `j`, the line's raised state is what the step runs with, the line
    /// is lowered from that state, and the line's end state is what the flock keeps.
    pub proof fn law_with_each_zip_steps_gated<X, Y, F: Fn(&Y, &T) -> UldResult<X>>(
        call: (&mut Self, &Vec<Y>, F),
        r: Result<Vec<X>>,
        j: int,
    )
        requires
            call_ensures(Self::with_each_zip::<X, Y, F>, call, r),
            0 <= j < mut_ref_current(call.0).spec_gates().len(),
        ensures
            exists|qh: &mut G, ql: &mut G, x: UldResult<X>|
                #![trigger call_ensures(G::set_high, (qh,), ()), call_ensures(G::set_low, (ql,), ()), call_ensures(run_gated_zip::<G, Y, T, X, F>, (&*final(qh), &call.2, &call.1@[j], &mut_ref_current(call.0).spec_handles()[j]), x)]
                *qh == mut_ref_current(call.0).spec_gates()[j] && call_ensures(G::set_high, (qh,), ())
                    && call_ensures(
                    run_gated_zip::<G, Y, T, X, F>,
                    (&*final(qh), &call.2, &call.1@[j], &mut_ref_current(call.0).spec_handles()[j]),
                    x,
                ) && *ql == *final(qh) && call_ensures(G::set_low, (ql,), ())
                    && *final(ql) == mut_ref_future(call.0).spec_gates()[j],
    {
        let (q, rq) = choose|q: &mut Self, rq: &mut Vec<UldResult<X>>|
            *q == mut_ref_current(call.0) && *final(q) == mut_ref_future(call.0) && (*rq)@.len() == 0
                && call_ensures(Self::with_each_zip_from::<X, Y, F>, (q, call.1, &call.2, 0usize, rq), ());
        Self::law_zip_step_between_raise_and_lower((q, call.1, &call.2, 0usize, rq), j);
        let before = mut_ref_current(call.0).spec_gates()[j];
        let after = mut_ref_future(call.0).spec_gates()[j];
        let x = mut_ref_future(rq)@[j];
    }

    /// As `with_each`, with each board's run also given the element of `ys` at the
    /// board's position.
    pub fn with_each_zip<X, Y, F: Fn(&Y, &T) -> UldResult<X>>(&mut self, ys: &Vec<Y>, f: F) -> (r:
        Result<Vec<X>>)
        requires
            ys@.len() == old(self).spec_len(),
            forall|i: int|
                0 <= i < old(self).spec_len() ==> call_requires(
                    f,
                    (&ys@[i], &#[trigger] old(self).spec_handles()[i]),
                ),
        ensures
            final(self).spec_handles() == old(self).spec_handles(),
            final(self).spec_gates().len() == old(self).spec_gates().len(),
            final(self).spec_log() == old(self).spec_log() + gated_pass(old(self).spec_len()),
            exists|q: &mut Self, rq: &mut Vec<UldResult<X>>|
                #![trigger call_ensures(Self::with_each_zip_from::<X, Y, F>, (q, ys, &f, 0usize, rq), ())]
                *q == *old(self) && *final(q) == *final(self) && (*rq)@.len() == 0
                    && call_ensures(Self::with_each_zip_from::<X, Y, F>, (q, ys, &f, 0usize, rq), ()),
            exists|rs: Seq<UldResult<X>>|
                {
                    &&& rs.len() == old(self).spec_len()
                    &&& forall|i: int|
                        0 <= i < rs.len() ==> call_ensures(
                            f,
                            (&ys@[i], &old(self).spec_handles()[i]),
                            #[trigger] rs[i],
                        )
                    &&& match r {
                        Ok(xs) => spec_join(rs) == Ok::<Seq<X>, Error>(xs@),
                        Err(e) => spec_join(rs) == Err::<Seq<X>, Error>(e),
                    }
                },
    {
        proof {
            use_type_invariant(&*self);
        }
        let mut rs: Vec<UldResult<X>> = Vec::new();
        let ghost gb = self.gates@;
        let ghost vb = self.vs@;
        assert forall|j: int| 0 <= j < vb.len() implies call_requires(f, (&ys@[j], &#[trigger] vb[j])) by {
            assert(vb[j] == old(self).spec_handles()[j]);
        }
        self.with_each_zip_from(ys, &f, 0, &mut rs);
        let r = join_results(rs);
        r
    }
}

impl<T, G: Gate> GateKeeper<T, G> {
    /// Initializes every board with `init` (firmware upload and defaults), each alone
    /// with its gate raised: what `map` does with `init`.
    pub fn init<X, F: Fn(T) -> UldResult<X>>(self, init: F) -> (r: Result<GateKeeper<X, G>>)
        requires
            forall|i: int| 0 <= i < self.spec_len() ==> call_requires(init, (#[trigger] self.spec_handles()[i],)),
        ensures
            exists|rs: Seq<UldResult<X>>|
                {
                    &&& rs.len() == self.spec_len()
                    &&& forall|i: int|
                        0 <= i < rs.len() ==> call_ensures(init, (self.spec_handles()[i],), #[trigger] rs[i])
                    &&& match r {
                        Ok(g) => spec_join(rs) == Ok::<Seq<X>, Error>(g.spec_handles()),
                        Err(e) => spec_join(rs) == Err::<Seq<X>, Error>(e),
                    }
                },
            call_ensures(Self::map::<X, F>, (self, init), r),
    {
        self.map(init)
    }

    /// The power mode of the boards, as read from each with `query` (each board alone
    /// with its gate raised, as `with_each` does): `None` when the boards disagree, which
    /// the caller must not accept (the boards are expected to agree).
    pub fn get_power_mode<F: Fn(&T) -> UldResult<PowerMode>>(&mut self, query: F) -> (r: Result<
        Option<PowerMode>,
    >)
        requires
            old(self).spec_len() > 0,
            forall|i: int|
                0 <= i < old(self).spec_len() ==> call_requires(
                    query,
                    (&#[trigger] old(self).spec_handles()[i],),
                ),
        ensures
            final(self).spec_handles() == old(self).spec_handles(),
            exists|rs: Seq<UldResult<PowerMode>>|
                {
                    &&& rs.len() == old(self).spec_len()
                    &&& forall|i: int|
                        0 <= i < rs.len() ==> call_ensures(
                            query,
                            (&old(self).spec_handles()[i],),
                            #[trigger] rs[i],
                        )
                    &&& match r {
                        Ok(m) => spec_join(rs) matches Ok(modes) && match m {
                            Some(mode) => forall|i: int|
                                0 <= i < modes.len() ==> #[trigger] modes[i] == mode,
                            None => exists|i: int|
                                0 <= i < modes.len() && #[trigger] modes[i] != modes[0],
                        },
                        Err(e) => spec_join(rs) == Err::<Seq<PowerMode>, Error>(e),
                    }
                },
            exists|q: &mut Self, w: Result<Vec<PowerMode>>|
                #![trigger call_ensures(Self::with_each::<PowerMode, F>, (q, query), w)]
                *q == *old(self) && *final(q) == *final(self) && call_ensures(
                    Self::with_each::<PowerMode, F>,
                    (q, query),
                    w,
                ) && (w is Err <==> r is Err),
    {
        let w = self.with_each(query);
        match w {
            Ok(modes) => Ok(common_mode(&modes)),
            Err(e) => Err(e),
        }
    }

    /// Sets power mode `v` on every board with `set`, each alone with its gate raised, as
    /// `with_each_zip` does; gives the first failure.
    pub fn set_power_mode<F: Fn(&PowerMode, &T) -> UldResult<()>>(
        &mut self,
        v: PowerMode,
        set: F,
    ) -> (r: Result<()>)
        requires
            forall|i: int|
                0 <= i < old(self).spec_len() ==> call_requires(
                    set,
                    (&v, &#[trigger] old(self).spec_handles()[i]),
                ),
        ensures
            final(self).spec_handles() == old(self).spec_handles(),
            exists|rs: Seq<UldResult<()>>|
                {
                    &&& rs.len() == old(self).spec_len()
                    &&& forall|i: int|
                        0 <= i < rs.len() ==> call_ensures(
                            set,
                            (&v, &old(self).spec_handles()[i]),
                            #[trigger] rs[i],
                        )
                    &&& match r {
                        Ok(()) => spec_join(rs) is Ok,
                        Err(e) => spec_join(rs) == Err::<Seq<()>, Error>(e),
                    }
                },
            exists|q: &mut Self, ys: &Vec<PowerMode>, w: Result<Vec<()>>|
                #![trigger call_ensures(Self::with_each_zip::<(), PowerMode, F>, (q, ys, set), w)]
                *q == *old(self) && *final(q) == *final(self) && ys@ == Seq::new(
                    old(self).spec_len(),
                    |i: int| v,
                ) && call_ensures(Self::with_each_zip::<(), PowerMode, F>, (q, ys, set), w) && (w is Err
                    <==> r is Err),
    {
        let n: usize = self.len();
        let vs: Vec<PowerMode> = vec![v; n];
        assert(vs@ =~= Seq::new(n as nat, |i: int| v));
        let w = self.with_each_zip(&vs, set);
        match w {
            Ok(_) => Ok(()),
            Err(e) => Err(e),
        }
    }
}

/// The power mode that every board reports, if they agree.
pub fn common_mode(modes: &Vec<PowerMode>) -> (r: Option<PowerMode>)
    requires
        modes@.len() > 0,
    ensures
        r matches Some(m) ==> m == modes@[0] && forall|i: int|
            0 <= i < modes@.len() ==> #[trigger] modes@[i] == m,
        r is None ==> exists|i: int| 0 <= i < modes@.len() && #[trigger] modes@[i] != modes@[0],
{
    let first = modes[0];
    let mut i: usize = 1;
    while i < modes.len()
        invariant
            1 <= i <= modes@.len(),
            first == modes@[0],
            forall|j: int| 0 <= j < i ==> #[trigger] modes@[j] == first,
        decreases modes@.len() - i,
    {
        if modes[i] != first {
            return None;
        }
        i = i + 1;
    }
    Some(first)
}

/// Whether `f` can map `a` successfully.
pub open spec fn maps_ok<A, B, E, F: Fn(A) -> core::result::Result<B, E>>(f: F, a: A) -> bool {
    exists|b: B| call_ensures(f, (a,), Ok::<B, E>(b))
}

/// Maps each element with a fallible `f`, in order, stopping at the first failure;
/// see `array_try_map`.
pub fn turn_to_something<A, B, E, F: Fn(A) -> core::result::Result<B, E>>(
    aa: Vec<A>,
    f: F,
) -> (r: core::result::Result<Vec<B>, E>)
    requires
        forall|i: int| 0 <= i < aa@.len() ==> call_requires(f, (#[trigger] aa@[i],)),
    ensures
        r matches Ok(bs) ==> bs@.len() == aa@.len() && forall|i: int|
            0 <= i < aa@.len() ==> call_ensures(f, (aa@[i],), Ok::<B, E>(#[trigger] bs@[i])),
        r matches Err(e) ==> exists|k: int|
            0 <= k < aa@.len() && call_ensures(f, (#[trigger] aa@[k],), Err::<B, E>(e)) && forall|j: int|
                0 <= j < k ==> #[trigger] maps_ok::<A, B, E, F>(f, aa@[j]),
{
    array_try_map(aa, f)
}

/// Maps each element with a fallible `f`, in order, stopping at the first failure.
pub fn array_try_map<A, B, E, F: Fn(A) -> core::result::Result<B, E>>(
    aa: Vec<A>,
    f: F,
) -> (r: core::result::Result<Vec<B>, E>)
    requires
        forall|i: int| 0 <= i < aa@.len() ==> call_requires(f, (#[trigger] aa@[i],)),
    ensures
        r matches Ok(bs) ==> bs@.len() == aa@.len() && forall|i: int|
            0 <= i < aa@.len() ==> call_ensures(f, (aa@[i],), Ok::<B, E>(#[trigger] bs@[i])),
        r matches Err(e) ==> exists|k: int|
            0 <= k < aa@.len() && call_ensures(f, (#[trigger] aa@[k],), Err::<B, E>(e)) && forall|j: int|
                0 <= j < k ==> #[trigger] maps_ok::<A, B, E, F>(f, aa@[j]),
{
    let ghost all = aa@;
    let mut rest = aa;
    let mut bs: Vec<B> = Vec::new();
    let n: usize = rest.len();
    let mut i: usize = 0;
    while rest.len() > 0
        invariant
            n == all.len(),
            all == aa@,
            i + rest@.len() == n,
            rest@ == all.subrange(i as int, n as int),
            bs@.len() == i,
            forall|j: int| 0 <= j < all.len() ==> call_requires(f, (#[trigger] all[j],)),
            forall|j: int| 0 <= j < i ==> call_ensures(f, (all[j],), Ok::<B, E>(#[trigger] bs@[j])),
        decreases rest@.len(),
    {
        let a = rest.remove(0);
        assert(a == all[i as int]);
        match f(a) {
            Ok(b) => {
                bs.push(b);
                i = i + 1;
            },
            Err(e) => {
                assert(call_ensures(f, (all[i as int],), Err::<B, E>(e)));
                assert forall|j: int| 0 <= j < i implies #[trigger] maps_ok::<A, B, E, F>(f, all[j]) by {
                    assert(call_ensures(f, (all[j],), Ok::<B, E>(bs@[j])));
                }
                return Err(e);
            },
        }
    }
    assert(forall|j: int| 0 <= j < all.len() ==> call_ensures(f, (all[j],), Ok::<B, E>(#[trigger] bs@[j])));
    Ok(bs)
}

} // verus!
