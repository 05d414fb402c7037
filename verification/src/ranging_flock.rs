//! Results from several sensors that share one interrupt line.
//!
//! Results are handed out one at a time. Anything pending is handed out first, the most
//! recently found first, without polling. With nothing pending, a round polls every
//! board; boards with fresh data contribute one result each, tagged with the board's
//! index and the time it was found ready. When a round finds nothing, the caller waits
//! for the next edge of the interrupt line and polls again.
use vstd::prelude::*;

use crate::results_data::ResultsData;
use crate::status::{Error, Result};
use crate::units::TempC;

verus! {

/// One result of a flock.
pub struct FlockResults<const DIM: usize, const TARGETS: usize> {
    /// Index of the board that produced it.
    pub board_index: usize,
    pub res: ResultsData<DIM, TARGETS>,
    pub temp_degc: TempC,
    /// When the board was found ready, in µs since start-up.
    pub time_stamp: u64,
}

/// One result of a single sensor.
pub struct SoloResults<const DIM: usize, const TARGETS: usize> {
    pub res: ResultsData<DIM, TARGETS>,
    pub temp_degc: TempC,
    /// When the interrupt line announced the scan, in µs since start-up.
    pub time_stamp: u64,
}

/// What polling one board gave: nothing ready, or the data with the time it was seen.
pub type Poll<const DIM: usize, const TARGETS: usize> = Result<
    Option<(ResultsData<DIM, TARGETS>, TempC, u64)>,
>;

/// Index of the first failed poll of a round, or the round's length.
pub open spec fn polled_until<const DIM: usize, const TARGETS: usize>(
    round: Seq<Poll<DIM, TARGETS>>,
    n: int,
) -> bool {
    &&& 0 <= n <= round.len()
    &&& forall|i: int| 0 <= i < n ==> #[trigger] round[i] is Ok
    &&& n < round.len() ==> round[n] is Err
}

/// The results that the first `n` polls of a round contribute, in board order.
pub open spec fn collected<const DIM: usize, const TARGETS: usize>(
    round: Seq<Poll<DIM, TARGETS>>,
    n: int,
) -> Seq<FlockResults<DIM, TARGETS>>
    decreases n,
{
    if n <= 0 {
        Seq::empty()
    } else {
        collected(round, n - 1) + match round[n - 1] {
            Ok(Some(d)) => seq![
                FlockResults {
                    board_index: (n - 1) as usize,
                    res: d.0,
                    temp_degc: d.1,
                    time_stamp: d.2,
                },
            ],
            _ => Seq::empty(),
        }
    }
}

/// A round contributes at most one result per poll.
pub proof fn lemma_collected_len<const DIM: usize, const TARGETS: usize>(
    round: Seq<Poll<DIM, TARGETS>>,
    n: int,
)
    requires
        0 <= n,
    ensures
        collected(round, n).len() <= n,
    decreases n,
{
    if n > 0 {
        lemma_collected_len(round, n - 1);
    }
}

/// Results found but not yet handed out, at most `capacity` of them (one per board).
pub struct PendingResults<const DIM: usize, const TARGETS: usize> {
    pending: Vec<FlockResults<DIM, TARGETS>>,
    capacity: usize,
}

impl<const DIM: usize, const TARGETS: usize> PendingResults<DIM, TARGETS> {
    /// No more results pending than there is room for.
    pub closed spec fn wf(&self) -> bool {
        self.pending@.len() <= self.capacity
    }

    /// The pending results, oldest first.
    pub closed spec fn spec_pending(&self) -> Seq<FlockResults<DIM, TARGETS>> {
        self.pending@
    }

    /// How many results can be pending at once.
    pub closed spec fn spec_capacity(&self) -> nat {
        self.capacity as nat
    }

    /// Nothing pending, room for `capacity` results.
    pub fn new(capacity: usize) -> (r: Self)
        ensures
            r.spec_pending() == Seq::<FlockResults<DIM, TARGETS>>::empty(),
            r.spec_capacity() == capacity,
            r.wf(),
    {
        PendingResults { pending: Vec::new(), capacity }
    }

    /// Whether nothing is pending.
    pub fn is_empty(&self) -> (r: bool)
        ensures
            r == (self.spec_pending().len() == 0),
    {
        self.pending.len() == 0
    }

    /// Takes in the polls of one round, board by board: each board with data adds a
    /// result tagged with its index; the first failed poll ends the round with its
    /// error (results of the earlier boards stay pending).
    pub fn take_round(&mut self, round: Vec<Poll<DIM, TARGETS>>) -> (r: Result<()>)
        requires
            old(self).wf(),
            old(self).spec_pending().len() + round@.len() <= old(self).spec_capacity(),
        ensures
            final(self).wf(),
            final(self).spec_capacity() == old(self).spec_capacity(),
            exists|n: int|
                {
                    &&& polled_until(round@, n)
                    &&& final(self).spec_pending() == old(self).spec_pending() + collected(
                        round@,
                        n,
                    )
                    &&& if n < round@.len() {
                        r == Err::<(), Error>(round@[n]->Err_0)
                    } else {
                        r == Ok::<(), Error>(())
                    }
                },
    {
        let ghost all = round@;
        let ghost start = self.pending@;
        let mut rest = round;
        let n: usize = rest.len();
        let mut i: usize = 0;
        while rest.len() > 0
            invariant
                n == all.len(),
                all == round@,
                start == old(self).spec_pending(),
                start.len() + n <= self.capacity,
                self.capacity == old(self).spec_capacity(),
                i + rest@.len() == n,
                rest@ == all.subrange(i as int, n as int),
                forall|j: int| 0 <= j < i ==> #[trigger] all[j] is Ok,
                self.pending@ == start + collected(all, i as int),
            decreases rest@.len(),
        {
            let p = rest.remove(0);
            assert(p == all[i as int]);
            proof {
                lemma_collected_len(all, i as int);
            }
            match p {
                Ok(Some((res, temp_degc, time_stamp))) => {
                    self.pending.push(
                        FlockResults { board_index: i, res, temp_degc, time_stamp },
                    );
                },
                Ok(None) => {},
                Err(e) => {
                    assert(polled_until(all, i as int));
                    proof {
                        lemma_collected_len(all, i as int);
                    }
                    return Err(e);
                },
            }
            assert(self.pending@ =~= start + collected(all, i + 1));
            i = i + 1;
        }
        assert(polled_until(all, n as int));
        proof {
            lemma_collected_len(all, n as int);
        }
        Ok(())
    }

    /// The step of waiting for results that follows a round of polls, which is made only
    /// when nothing is pending (anything pending is handed out first, by `pop`, without
    /// polling): takes in the round, then hands out the most recently found result.
    /// `Ok(None)` means the round found nothing, and the caller waits for the interrupt
    /// line before the next round.
    pub fn after_round(&mut self, round: Vec<Poll<DIM, TARGETS>>) -> (r: Result<
        Option<FlockResults<DIM, TARGETS>>,
    >)
        requires
            old(self).wf(),
            old(self).spec_pending().len() == 0,
            round@.len() <= old(self).spec_capacity(),
        ensures
            final(self).wf(),
            final(self).spec_capacity() == old(self).spec_capacity(),
            exists|n: int|
                {
                    &&& polled_until(round@, n)
                    &&& if n < round@.len() {
                        &&& r == Err::<Option<FlockResults<DIM, TARGETS>>, Error>(round@[n]->Err_0)
                        &&& final(self).spec_pending() == collected(round@, n)
                    } else {
                        let found = collected(round@, n);
                        &&& found.len() == 0 ==> r == Ok::<
                            Option<FlockResults<DIM, TARGETS>>,
                            Error,
                        >(None) && final(self).spec_pending() == found
                        &&& found.len() > 0 ==> r == Ok::<
                            Option<FlockResults<DIM, TARGETS>>,
                            Error,
                        >(Some(found.last())) && final(self).spec_pending() == found.drop_last()
                    }
                },
    {
        let ghost start = self.pending@;
        let taken = self.take_round(round);
        proof {
            assert forall|n: int| 0 <= n <= round@.len() implies start + collected(round@, n) =~= collected(round@, n) by {}
        }
        match taken {
            Ok(()) => Ok(self.pop()),
            Err(e) => Err(e),
        }
    }

    /// The first step of waiting for results: hands out the most recently found pending
    /// result, if any, without polling.
    pub fn pop(&mut self) -> (r: Option<FlockResults<DIM, TARGETS>>)
        requires
            old(self).wf(),
        ensures
            final(self).wf(),
            final(self).spec_capacity() == old(self).spec_capacity(),
            old(self).spec_pending().len() == 0 ==> r is None && final(self).spec_pending()
                == old(self).spec_pending(),
            old(self).spec_pending().len() > 0 ==> r == Some(old(self).spec_pending().last())
                && final(self).spec_pending() == old(self).spec_pending().drop_last(),
    {
        self.pending.pop()
    }
}

/// Every result of a round names the board it came from, and boards appear in
/// increasing order.
pub proof fn lemma_collected_boards<const DIM: usize, const TARGETS: usize>(
    round: Seq<Poll<DIM, TARGETS>>,
    n: int,
)
    requires
        0 <= n <= round.len(),
        round.len() <= usize::MAX,
    ensures
        forall|k: int|
            0 <= k < collected(round, n).len() ==> #[trigger] collected(round, n)[k].board_index
                < n,
        forall|k: int, l: int|
            0 <= k < l < collected(round, n).len() ==> #[trigger] collected(round, n)[k].board_index
                < #[trigger] collected(round, n)[l].board_index,
    decreases n,
{
    if n > 0 {
        lemma_collected_boards(round, n - 1);
        let prev = collected(round, n - 1);
        let cur = collected(round, n);
        assert forall|k: int| 0 <= k < cur.len() implies #[trigger] cur[k].board_index < n by {
            if k < prev.len() {
                assert(cur[k] == prev[k]);
            }
        }
        assert forall|k: int, l: int|
            0 <= k < l < cur.len() implies #[trigger] cur[k].board_index
                < #[trigger] cur[l].board_index by {
            assert(cur[k] == prev[k]);
            assert(prev[k].board_index < n - 1);
            if l < prev.len() {
                assert(cur[l] == prev[l]);
            } else {
                assert(cur[l].board_index == n - 1);
            }
        }
    }
}

} // verus!
