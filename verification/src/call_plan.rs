//! Running a sequence of vendor driver calls, stopping at the first failure.
//!
//! The library decides which calls are made and what their statuses mean; the
//! caller performs each call on the driver and reports its status back.
use vstd::prelude::*;

use crate::ranging::UldCall;
use crate::status::{Error, Result, ST_OK};

verus! {

/// A sequence of vendor calls, with the progress made through it.
pub struct CallPlan {
    calls: Vec<UldCall>,
    done: usize,
    failed: Option<u8>,
}

impl CallPlan {
    #[verifier::type_invariant]
    spec fn progress_in_range(self) -> bool {
        self.done <= self.calls@.len()
    }

    /// The calls, in order.
    pub closed spec fn spec_calls(&self) -> Seq<UldCall> {
        self.calls@
    }

    /// How many calls have succeeded.
    pub closed spec fn spec_done(&self) -> nat {
        self.done as nat
    }

    /// The status of the call that failed, if one did.
    pub closed spec fn spec_failed(&self) -> Option<u8> {
        self.failed
    }

    /// The call to make next: the first one not yet made, unless a call failed.
    pub open spec fn spec_next_call(&self) -> Option<UldCall> {
        if self.spec_failed() is None && self.spec_done() < self.spec_calls().len() {
            Some(self.spec_calls()[self.spec_done() as int])
        } else {
            None
        }
    }

    /// The result of the run: the first failure's status as the error, `Ok` once all
    /// calls succeeded, nothing while calls remain.
    pub open spec fn spec_outcome(&self) -> Option<Result<()>> {
        match self.spec_failed() {
            Some(st) => Some(Err(Error(st))),
            None => if self.spec_done() == self.spec_calls().len() {
                Some(Ok(()))
            } else {
                None
            },
        }
    }

    /// A run of `calls` that has not started.
    pub fn new(calls: Vec<UldCall>) -> (r: Self)
        ensures
            r.spec_calls() == calls@,
            r.spec_done() == 0,
            r.spec_failed() is None,
    {
        CallPlan { calls, done: 0, failed: None }
    }

    /// The call to make next; see `spec_next_call`.
    pub fn next_call(&self) -> (r: Option<UldCall>)
        ensures
            r == self.spec_next_call(),
    {
        proof {
            use_type_invariant(self);
        }
        if self.failed.is_none() && self.done < self.calls.len() {
            Some(self.calls[self.done])
        } else {
            None
        }
    }

    /// Reports the status of the call that `next_call` gave.
    pub fn report(&mut self, status: u8)
        requires
            old(self).spec_next_call() is Some,
        ensures
            final(self).spec_calls() == old(self).spec_calls(),
            status == ST_OK ==> final(self).spec_done() == old(self).spec_done() + 1
                && final(self).spec_failed() is None,
            status != ST_OK ==> final(self).spec_done() == old(self).spec_done()
                && final(self).spec_failed() == Some(status),
    {
        proof {
            use_type_invariant(&*self);
        }
        let n: usize = self.calls.len();
        if status == ST_OK {
            assert(self.done < n);
            self.done = self.done + 1;
        } else {
            self.failed = Some(status);
        }
    }

    /// The result of the run so far; see `spec_outcome`.
    pub fn outcome(&self) -> (r: Option<Result<()>>)
        ensures
            r == self.spec_outcome(),
    {
        proof {
            use_type_invariant(self);
        }
        match self.failed {
            Some(st) => Some(Err(Error(st))),
            None => if self.done == self.calls.len() {
                Some(Ok(()))
            } else {
                None
            },
        }
    }
}

/// A run makes progress at each step: while no outcome is known, there is a next call,
/// and once an outcome is known, no call is made any more.
pub proof fn lemma_plan_progress(p: CallPlan)
    requires
        p.spec_done() <= p.spec_calls().len(),
    ensures
        p.spec_outcome() is None <==> p.spec_next_call() is Some,
{
}

} // verus!
