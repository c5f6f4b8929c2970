use vstd::prelude::*;
use crate::error::APIErr;

verus! {

// The abstract state of one download batch.  The orchestrator's
// executable steps are specified against the transitions below, and the
// batch-wide guarantees are proved of the transitions once and for all:
// every identifier is attempted exactly once, the concurrency cap bounds
// dispatch, identifiers stay unique in flight, the batch terminates, and
// raising the cap only ever enables more dispatch.

/// One batch, seen abstractly: the identifiers not yet dispatched, the
/// identifiers in flight, the tally of completed downloads, the recorded
/// failures, the live concurrency cap and the running flag.
#[verifier::ext_equal]
pub struct BatchState {
    pub pending: Seq<Seq<char>>,
    pub in_flight: Seq<Seq<char>>,
    pub completed: int,
    pub failures: Seq<(Seq<char>, APIErr)>,
    pub cap: int,
    pub running: bool,
}

impl BatchState {
    /// Basic sanity of a batch state.
    pub open spec fn wf(self) -> bool {
        &&& self.cap >= 1
        &&& self.completed >= 0
    }

    /// How many identifiers this batch was started with: everything is
    /// either still pending, in flight, completed, or recorded as failed.
    pub open spec fn accounted(self) -> int {
        self.completed + self.failures.len() + self.in_flight.len() + self.pending.len()
    }

    /// A new dispatch is allowed: work remains and the number in flight
    /// is below the cap read at this very moment.
    pub open spec fn can_dispatch(self) -> bool {
        &&& self.running
        &&& self.pending.len() > 0
        &&& self.in_flight.len() < self.cap
    }

    /// Dispatching moves the most recently queued identifier from the
    /// pending queue into the in-flight set.
    pub open spec fn dispatch(self) -> BatchState {
        BatchState {
            pending: self.pending.drop_last(),
            in_flight: self.in_flight.push(self.pending.last()),
            ..self
        }
    }

    /// The identifier at position `j` of the in-flight set has finished.
    /// A success bumps the completed tally; a failure is recorded with
    /// its identifier.  Either way the identifier leaves the in-flight
    /// set, the last in-flight entry taking its place.
    pub open spec fn complete(self, j: int, outcome: Option<APIErr>) -> BatchState {
        let removed = BatchState {
            in_flight: self.in_flight.update(j, self.in_flight.last()).drop_last(),
            ..self
        };
        match outcome {
            None => BatchState { completed: self.completed + 1, ..removed },
            Some(err) => BatchState {
                failures: self.failures.push((self.in_flight[j], err)),
                ..removed
            },
        }
    }

    /// The caller moves the concurrency cap; nothing else changes, and
    /// in particular nothing already dispatched is interrupted.
    pub open spec fn set_cap(self, c: int) -> BatchState {
        BatchState { cap: c, ..self }
    }

    /// Nothing remains to dispatch or to wait for.
    pub open spec fn terminal(self) -> bool {
        self.pending.len() == 0 && self.in_flight.len() == 0
    }

    /// The work still ahead of the batch: two steps per pending
    /// identifier (dispatch, then completion), one per in-flight one.
    pub open spec fn measure(self) -> int {
        2 * (self.pending.len() as int) + self.in_flight.len()
    }

    /// No identifier occurs twice across the pending queue and the
    /// in-flight set together.
    pub open spec fn all_distinct(self) -> bool {
        let all = self.pending + self.in_flight;
        forall|i: int, j: int| 0 <= i < j < all.len() ==> all[i] != all[j]
    }
}

/// Exactly-once attempt: no transition creates or loses an identifier.
/// Every step preserves the account `completed + |failures| + |in_flight|
/// + |pending|`, so once a batch is terminal the completions and the
/// failures alone add up to the identifiers it was started with.
pub proof fn lemma_exactly_once(s: BatchState, j: int, outcome: Option<APIErr>, c: int)
    ensures
        s.pending.len() > 0 ==> s.dispatch().accounted() == s.accounted(),
        0 <= j < s.in_flight.len() ==> s.complete(j, outcome).accounted() == s.accounted(),
        s.set_cap(c).accounted() == s.accounted(),
        s.terminal() ==> s.completed + s.failures.len() == s.accounted(),
{
}

/// Cap respected: starting from a state where the in-flight set is within
/// the cap, a dispatch (which is only allowed below the cap) and a
/// completion (which shrinks the in-flight set) both leave it within the
/// cap.  Only lowering the cap itself can put a state above it, and that
/// is the one step the batch never takes on its own.
pub proof fn lemma_cap_respected(s: BatchState, j: int, outcome: Option<APIErr>)
    requires
        s.in_flight.len() <= s.cap,
    ensures
        s.can_dispatch() ==> s.dispatch().in_flight.len() <= s.dispatch().cap,
        0 <= j < s.in_flight.len() ==> s.complete(j, outcome).in_flight.len() <= s.complete(
            j,
            outcome,
        ).cap,
{
}

/// Termination: both working transitions strictly shrink a non-negative
/// measure, and only a terminal state has measure zero, so a batch over a
/// finite list reaches its terminal state after finitely many steps.
/// No transition raises the running flag: once a batch has ended, only a
/// fresh start can set it again.
pub proof fn lemma_termination(s: BatchState, j: int, outcome: Option<APIErr>, c: int)
    ensures
        s.measure() >= 0,
        s.pending.len() > 0 ==> s.dispatch().measure() == s.measure() - 1,
        0 <= j < s.in_flight.len() ==> s.complete(j, outcome).measure() == s.measure() - 1,
        s.measure() == 0 <==> s.terminal(),
        s.dispatch().running == s.running,
        s.complete(j, outcome).running == s.running,
        s.set_cap(c).running == s.running,
{
}

/// No duplicate in flight: when a batch starts from distinct identifiers,
/// dispatch and completion keep the pending queue and the in-flight set
/// distinct as a whole, so no identifier is ever in flight twice at once.
pub proof fn lemma_no_duplicate_in_flight(s: BatchState, j: int, outcome: Option<APIErr>)
    requires
        s.all_distinct(),
    ensures
        s.pending.len() > 0 ==> s.dispatch().all_distinct(),
        0 <= j < s.in_flight.len() ==> s.complete(j, outcome).all_distinct(),
{
    if s.pending.len() > 0 {
        let all = s.pending + s.in_flight;
        let all2 = s.dispatch().pending + s.dispatch().in_flight;
        assert forall|i: int, k: int| 0 <= i < k < all2.len() implies all2[i] != all2[k] by {
            let n = s.pending.len() as int;
            let to_old = |x: int| if x < n - 1 { x } else if x == all2.len() - 1 { n - 1 } else { x + 1 };
            assert(all2[i] == all[to_old(i)] && all2[k] == all[to_old(k)]);
            assert(to_old(i) != to_old(k));
        }
    }
    if 0 <= j < s.in_flight.len() {
        let t = s.complete(j, outcome);
        let all = s.pending + s.in_flight;
        let all2 = t.pending + t.in_flight;
        let n = s.pending.len() as int;
        assert forall|i: int, k: int| 0 <= i < k < all2.len() implies all2[i] != all2[k] by {
            let to_old = |x: int| if x == n + j { all.len() - 1 } else { x };
            assert(all2[i] == all[to_old(i)] && all2[k] == all[to_old(k)]);
            assert(to_old(i) != to_old(k));
        }
    }
}

/// Cap liveness: raising the cap never disables a dispatch that was
/// allowed, and moving the cap in either direction touches nothing that
/// is already in flight.
pub proof fn lemma_cap_liveness(s: BatchState, c1: int, c2: int)
    requires
        c1 <= c2,
    ensures
        s.set_cap(c1).can_dispatch() ==> s.set_cap(c2).can_dispatch(),
        s.set_cap(c1).in_flight == s.in_flight,
        s.set_cap(c2).in_flight == s.in_flight,
        s.set_cap(c1).pending == s.pending,
        s.set_cap(c2).pending == s.pending,
{
}

} // verus!
