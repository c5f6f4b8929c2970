use vstd::prelude::*;
use crate::error::APIErr;
use crate::model::BatchState;
use crate::shared::{find_id, lemma_find_id_bounds, SharedInfo};

verus! {

// One download batch, driven step by step.  The batch owns the pending
// queue and the progress record; every step is specified against the
// abstract transitions of `BatchState`, so the batch-wide laws proved of
// the model hold of every run of this machine.

/// The outcome of one per-item task, as the model records it.
pub open spec fn err_of(outcome: Result<(), APIErr>) -> Option<APIErr> {
    match outcome {
        Ok(_) => None,
        Err(e) => Some(e),
    }
}

/// How many outcomes in `s` are successes.
pub open spec fn count_ok(s: Seq<Option<APIErr>>) -> int
    decreases s.len(),
{
    if s.len() == 0 {
        0
    } else {
        count_ok(s.drop_last()) + if s.last() is None {
            1int
        } else {
            0int
        }
    }
}

/// How many outcomes in `s` are failures.
pub open spec fn count_err(s: Seq<Option<APIErr>>) -> int
    decreases s.len(),
{
    if s.len() == 0 {
        0
    } else {
        count_err(s.drop_last()) + if s.last() is Some {
            1int
        } else {
            0int
        }
    }
}

pub proof fn lemma_count_split(s: Seq<Option<APIErr>>)
    ensures
        count_ok(s) >= 0,
        count_err(s) >= 0,
        count_ok(s) + count_err(s) == s.len(),
    decreases s.len(),
{
    if s.len() > 0 {
        lemma_count_split(s.drop_last());
    }
}

pub proof fn lemma_count_push(s: Seq<Option<APIErr>>, x: Option<APIErr>)
    ensures
        count_ok(s.push(x)) == count_ok(s) + if x is None {
            1int
        } else {
            0int
        },
        count_err(s.push(x)) == count_err(s) + if x is Some {
            1int
        } else {
            0int
        },
{
    assert(s.push(x).drop_last() =~= s);
    assert(s.push(x).last() == x);
}

/// The outcomes still attached to the in-flight shadow list.
pub open spec fn shadow_outcomes(s: Seq<(String, Option<APIErr>)>) -> Seq<Option<APIErr>> {
    Seq::new(s.len(), |i: int| s[i].1)
}

/// One batch of downloads, stepped by its owner: a pending queue and the
/// progress record, evolving exactly as the abstract transitions say.
pub struct Batch {
    pending: Vec<String>,
    info: SharedInfo,
    total: Ghost<int>,
}

impl Batch {
    /// The abstract state this batch is in.
    pub closed spec fn state(self) -> BatchState {
        BatchState {
            pending: self.pending.deep_view(),
            in_flight: self.info.in_flight(),
            completed: self.info.downloaded as int,
            failures: self.info.failures(),
            cap: self.info.max_concurrent_downloads as int,
            running: self.info.downloading,
        }
    }

    /// How many identifiers the batch was started with.
    pub closed spec fn total(self) -> int {
        self.total@
    }

    /// Every identifier is accounted for, and the account fits the
    /// machine: completed, failed, in flight and pending add up to the
    /// identifiers the batch was started with.
    pub closed spec fn inv(self) -> bool {
        &&& self.info.wf()
        &&& self.state().accounted() == self.total@
        &&& 0 <= self.total@ <= usize::MAX
    }

    /// Starts a batch over `ids` with the given concurrency cap: all of
    /// `ids` pending, nothing in flight, nothing finished, running.
    pub fn start(ids: Vec<String>, cap: usize) -> (b: Batch)
        requires
            cap >= 1,
        ensures
            b.inv(),
            b.state().pending == ids.deep_view(),
            b.state().in_flight.len() == 0,
            b.state().completed == 0,
            b.state().failures.len() == 0,
            b.state().cap == cap,
            b.state().running,
            b.total() == ids@.len(),
    {
        let count = ids.len();
        let ghost n = count as int;
        let mut info = SharedInfo::new(cap);
        info.downloading = true;
        Batch { pending: ids, info, total: Ghost(n) }
    }

    /// How many identifiers are still pending.
    pub fn pending_count(&self) -> (r: usize)
        ensures
            r == self.state().pending.len(),
    {
        self.pending.len()
    }

    /// How many identifiers are in flight.
    pub fn in_flight_count(&self) -> (r: usize)
        ensures
            r == self.state().in_flight.len(),
    {
        self.info.ongoing_downloads.len()
    }

    /// How many downloads have finished.
    pub fn downloaded_count(&self) -> (r: usize)
        ensures
            r == self.state().completed,
    {
        self.info.downloaded
    }

    /// How many downloads have failed.
    pub fn failure_count(&self) -> (r: usize)
        ensures
            r == self.state().failures.len(),
    {
        self.info.failed_downloads.len()
    }

    /// The concurrency cap currently in force.
    pub fn cap(&self) -> (r: usize)
        ensures
            r == self.state().cap,
    {
        self.info.max_concurrent_downloads
    }

    /// Moves the concurrency cap; everything else, and in particular
    /// everything already in flight, is untouched.
    pub fn set_cap(&mut self, n: usize)
        requires
            old(self).inv(),
            n >= 1,
        ensures
            final(self).inv(),
            final(self).total() == old(self).total(),
            final(self).state() == old(self).state().set_cap(n as int),
    {
        self.info.max_concurrent_downloads = n;
        proof {
            assert(self.state() =~= old(self).state().set_cap(n as int));
        }
    }

    /// Dispatches one pending identifier if the cap allows it: the most
    /// recently queued identifier moves into the in-flight set and is
    /// returned so the caller can run its task.  `None` exactly when no
    /// dispatch is allowed at this instant; a successful dispatch never
    /// pushes the in-flight set above the cap.
    pub fn try_dispatch(&mut self) -> (r: Option<String>)
        requires
            old(self).inv(),
        ensures
            final(self).inv(),
            final(self).total() == old(self).total(),
            match r {
                Some(id) => old(self).state().can_dispatch() && id@ == old(
                    self,
                ).state().pending.last() && final(self).state() == old(self).state().dispatch()
                    && final(self).state().in_flight.len() <= final(self).state().cap,
                None => !old(self).state().can_dispatch() && final(self).state() == old(
                    self,
                ).state(),
            },
    {
        if self.pending.len() == 0 {
            return None;
        }
        if !self.info.downloading {
            return None;
        }
        if self.info.ongoing_downloads.len() >= self.info.max_concurrent_downloads {
            return None;
        }
        let id = self.pending.pop().unwrap();
        let dispatched = id.clone();
        self.info.record_dispatch(id);
        proof {
            assert(self.pending.deep_view() =~= old(self).pending.deep_view().drop_last());
            assert(self.state() =~= old(self).state().dispatch());
        }
        Some(dispatched)
    }

    /// Applies the outcome of one finished task: a success bumps the
    /// completed tally, a failure is recorded with its identifier, and
    /// either way the identifier leaves the in-flight set — exactly the
    /// `complete` transition at the identifier's first in-flight
    /// position.
    pub fn on_completion(&mut self, id: &String, outcome: Result<(), APIErr>)
        requires
            old(self).inv(),
            old(self).state().in_flight.contains(id@),
        ensures
            final(self).inv(),
            final(self).total() == old(self).total(),
            ({
                let fid = find_id(old(self).state().in_flight, id@, 0);
                &&& fid is Some
                &&& final(self).state() == old(self).state().complete(
                    fid->0,
                    err_of(outcome),
                )
                &&& old(self).state().in_flight[fid->0] == id@
            }),
    {
        proof {
            lemma_find_id_some(old(self).state().in_flight, id@);
            let fid = find_id(old(self).state().in_flight, id@, 0);
            lemma_find_id_bounds(old(self).state().in_flight, id@, 0, fid->0);
        }
        match outcome {
            Ok(_) => {
                assert(old(self).state().in_flight.len() >= 1);
                self.info.record_success();
                self.info.remove_in_flight(id);
            },
            Err(err) => {
                self.info.record_failure(id.clone(), err);
                self.info.remove_in_flight(id);
            },
        }
        proof {
            let fid = find_id(old(self).state().in_flight, id@, 0);
            assert(self.state() =~= old(self).state().complete(fid->0, err_of(outcome)));
        }
    }

    /// Whether the batch has drained: nothing pending, nothing in
    /// flight.
    pub fn is_done(&self) -> (r: bool)
        ensures
            r == self.state().terminal(),
    {
        self.pending.len() == 0 && self.info.ongoing_downloads.len() == 0
    }

    /// Ends a drained batch: the running flag falls, and with it the
    /// observer's `downloading` answer.
    pub fn finish(&mut self)
        requires
            old(self).inv(),
            old(self).state().terminal(),
        ensures
            final(self).inv(),
            final(self).total() == old(self).total(),
            final(self).state() == (BatchState { running: false, ..old(self).state() }),
    {
        self.info.downloading = false;
        proof {
            assert(self.state() =~= (BatchState { running: false, ..old(self).state() }));
        }
    }

    /// Hands the progress record out of a finished batch.
    pub fn into_info(self) -> (info: SharedInfo)
        ensures
            info.in_flight() == self.state().in_flight,
            info.downloaded == self.state().completed,
            info.failures() == self.state().failures,
            info.max_concurrent_downloads == self.state().cap,
            info.downloading == self.state().running,
            self.inv() ==> info.wf(),
    {
        self.info
    }
}

/// What the batch invariant guarantees: a positive cap, and every
/// identifier accounted for — completed, failed, in flight and pending
/// add up to what the batch was started with.
pub proof fn lemma_batch_inv(b: Batch)
    requires
        b.inv(),
    ensures
        b.state().cap >= 1,
        b.state().accounted() == b.total(),
        0 <= b.total() <= usize::MAX,
{
}

/// An identifier contained in `ids` is found by `find_id`.
proof fn lemma_find_id_some(ids: Seq<Seq<char>>, x: Seq<char>)
    requires
        ids.contains(x),
    ensures
        find_id(ids, x, 0) is Some,
{
    let w = choose|w: int| 0 <= w < ids.len() && ids[w] == x;
    lemma_find_id_prefix(ids, x, 0, w);
}

proof fn lemma_find_id_prefix(ids: Seq<Seq<char>>, x: Seq<char>, i: int, w: int)
    requires
        0 <= i <= w < ids.len(),
        ids[w] == x,
    ensures
        find_id(ids, x, i) is Some,
    decreases w - i,
{
    if ids[i] != x {
        lemma_find_id_prefix(ids, x, i + 1, w);
    }
}

/// The running invariant of a deterministic batch run: the batch agrees
/// with the untouched suffix of the input lists, the shadow list mirrors
/// the in-flight set entry by entry, every shadow entry and every
/// recorded failure traces back to an input position, and the tallies
/// add up.
pub open spec fn run_inv(
    b: Batch,
    fly: Seq<(String, Option<APIErr>)>,
    outs: Seq<Option<APIErr>>,
    ids0: Seq<Seq<char>>,
    outcomes0: Seq<Option<APIErr>>,
    cap: int,
) -> bool {
    &&& b.inv()
    &&& b.total() == ids0.len()
    &&& b.state().running
    &&& b.state().cap == cap
    &&& b.state().pending == ids0.take(b.state().pending.len() as int)
    &&& outs == outcomes0.take(b.state().pending.len() as int)
    &&& outcomes0.len() == ids0.len()
    &&& fly.len() == b.state().in_flight.len()
    &&& fly.len() <= cap
    &&& (forall|m: int| 0 <= m < fly.len() ==> #[trigger] fly[m].0@ == b.state().in_flight[m])
    &&& (forall|m: int|
        0 <= m < fly.len() ==> exists|j: int|
            0 <= j < ids0.len() && ids0[j] == #[trigger] fly[m].0@ && outcomes0[j] == fly[m].1)
    &&& b.state().completed + count_ok(outs) + count_ok(shadow_outcomes(fly)) == count_ok(
        outcomes0,
    )
    &&& b.state().failures.len() + count_err(outs) + count_err(shadow_outcomes(fly)) == count_err(
        outcomes0,
    )
    &&& (forall|k: int|
        0 <= k < b.state().failures.len() ==> exists|j: int|
            0 <= j < ids0.len() && ids0[j] == #[trigger] b.state().failures[k].0 && outcomes0[j]
                == Some(b.state().failures[k].1))
}

/// Completes the most recently dispatched in-flight task with its
/// attached outcome.
fn complete_last(
    b: &mut Batch,
    fly: &mut Vec<(String, Option<APIErr>)>,
    Ghost(ids0): Ghost<Seq<Seq<char>>>,
    Ghost(outcomes0): Ghost<Seq<Option<APIErr>>>,
    Ghost(outs): Ghost<Seq<Option<APIErr>>>,
    Ghost(cap): Ghost<int>,
)
    requires
        run_inv(*old(b), old(fly)@, outs, ids0, outcomes0, cap),
        old(fly)@.len() > 0,
    ensures
        run_inv(*final(b), final(fly)@, outs, ids0, outcomes0, cap),
        final(fly)@.len() == old(fly)@.len() - 1,
        final(b).state().pending == old(b).state().pending,
        final(b).state().measure() == old(b).state().measure() - 1,
{
    let ghost pre = b.state();
    let ghost flypre = fly@;
    let last = fly.pop().unwrap();
    let done_id = last.0;
    let done_out = last.1;
    proof {
        assert(pre.in_flight[pre.in_flight.len() - 1] == done_id@);
        assert(pre.in_flight.contains(done_id@));
    }
    let res: Result<(), APIErr> = match done_out {
        None => Ok(()),
        Some(e) => Err(e),
    };
    b.on_completion(&done_id, res);
    proof {
        let j = find_id(pre.in_flight, done_id@, 0)->0;
        lemma_find_id_bounds(pre.in_flight, done_id@, 0, j);
        assert(err_of(res) == done_out);
        assert(shadow_outcomes(flypre).drop_last() =~= shadow_outcomes(fly@));
        assert(shadow_outcomes(flypre).last() == done_out);
        assert forall|m: int| 0 <= m < fly@.len() implies #[trigger] fly@[m].0@
            == b.state().in_flight[m] by {
            assert(fly@[m] == flypre[m]);
            if m == j {
                assert(pre.in_flight[j] == done_id@);
            }
        }
        if res is Err {
            let e = res->Err_0;
            assert(b.state().failures == pre.failures.push((pre.in_flight[j], e)));
            assert(pre.in_flight[j] == done_id@);
            assert(flypre[flypre.len() - 1].0@ == done_id@ && flypre[flypre.len() - 1].1
                == done_out);
            assert forall|k: int| 0 <= k < b.state().failures.len() implies exists|j0: int|
                0 <= j0 < ids0.len() && ids0[j0] == #[trigger] b.state().failures[k].0
                    && outcomes0[j0] == Some(b.state().failures[k].1) by {
                if k < pre.failures.len() {
                    assert(b.state().failures[k] == pre.failures[k]);
                } else {
                    assert(b.state().failures[k] == (done_id@, e));
                    let j0 = choose|j0: int|
                        0 <= j0 < ids0.len() && ids0[j0] == flypre[flypre.len() - 1].0@
                            && outcomes0[j0] == flypre[flypre.len() - 1].1;
                    assert(ids0[j0] == b.state().failures[k].0 && outcomes0[j0] == Some(
                        b.state().failures[k].1,
                    ));
                }
            }
        }
    }
}

/// Runs one whole batch deterministically to its end: the outcome at
/// each position of `outcomes` stands in for the task of the identifier
/// at the same position of `ids`.  Identifiers are dispatched from the
/// back of the list, at no point are more than `cap` of them in flight,
/// and when the run returns, the batch has terminated: the completed
/// tally and the failure list add up to the whole input — every
/// identifier was attempted exactly once — and every recorded failure
/// carries the identifier and the error of an input position.
pub fn run_batch(ids: Vec<String>, outcomes: Vec<Option<APIErr>>, cap: usize) -> (info: SharedInfo)
    requires
        cap >= 1,
        outcomes@.len() == ids@.len(),
    ensures
        info.wf(),
        !info.downloading,
        info.in_flight().len() == 0,
        info.max_concurrent_downloads == cap,
        info.downloaded + info.failures().len() == ids@.len(),
        info.downloaded == count_ok(outcomes@),
        info.failures().len() == count_err(outcomes@),
        forall|k: int|
            0 <= k < info.failures().len() ==> exists|j: int|
                0 <= j < ids@.len() && ids.deep_view()[j] == #[trigger] info.failures()[k].0
                    && outcomes@[j] == Some(info.failures()[k].1),
{
    let ghost ids0 = ids.deep_view();
    let ghost outcomes0 = outcomes@;
    let mut outs = outcomes;
    let mut fly: Vec<(String, Option<APIErr>)> = Vec::new();
    let mut b = Batch::start(ids, cap);
    proof {
        assert(ids0.take(ids0.len() as int) =~= ids0);
        assert(outcomes0.take(outcomes0.len() as int) =~= outcomes0);
        assert(shadow_outcomes(fly@) =~= Seq::<Option<APIErr>>::empty());
    }
    while b.pending_count() > 0
        invariant
            run_inv(b, fly@, outs@, ids0, outcomes0, cap as int),
        decreases b.state().measure(),
    {
        let ghost pre = b.state();
        match b.try_dispatch() {
            Some(id) => {
                let ghost flypre = fly@;
                let ghost outspre = outs@;
                let ghost idv = id@;
                let out = outs.pop().unwrap();
                fly.push((id, out));
                proof {
                    let p = pre.pending.len() as int;
                    assert(pre.pending.last() == ids0[p - 1]);
                    assert(out == outcomes0[p - 1]);
                    assert(b.state().pending =~= ids0.take(p - 1));
                    assert(outs@ =~= outcomes0.take(p - 1));
                    assert(shadow_outcomes(fly@) =~= shadow_outcomes(flypre).push(out));
                    lemma_count_push(shadow_outcomes(flypre), out);
                    lemma_count_push(outcomes0.take(p - 1), outcomes0[p - 1]);
                    assert(outcomes0.take(p) =~= outcomes0.take(p - 1).push(outcomes0[p - 1]));
                    assert forall|m: int| 0 <= m < fly@.len() implies #[trigger] fly@[m].0@
                        == b.state().in_flight[m] by {
                        if m < flypre.len() {
                            assert(fly@[m] == flypre[m]);
                        } else {
                            assert(fly@[m].0@ == idv);
                        }
                    }
                    assert forall|m: int| 0 <= m < fly@.len() implies exists|j: int|
                        0 <= j < ids0.len() && ids0[j] == #[trigger] fly@[m].0@ && outcomes0[j]
                            == fly@[m].1 by {
                        if m < flypre.len() {
                            assert(fly@[m] == flypre[m]);
                        } else {
                            assert(ids0[p - 1] == fly@[m].0@ && outcomes0[p - 1] == fly@[m].1);
                        }
                    }
                }
            },
            None => {
                proof {
                    assert(pre.in_flight.len() >= cap);
                }
                complete_last(
                    &mut b,
                    &mut fly,
                    Ghost(ids0),
                    Ghost(outcomes0),
                    Ghost(outs@),
                    Ghost(cap as int),
                );
            },
        }
    }
    while fly.len() > 0
        invariant
            run_inv(b, fly@, outs@, ids0, outcomes0, cap as int),
            b.state().pending.len() == 0,
        decreases fly@.len(),
    {
        complete_last(
            &mut b,
            &mut fly,
            Ghost(ids0),
            Ghost(outcomes0),
            Ghost(outs@),
            Ghost(cap as int),
        );
    }
    proof {
        lemma_count_split(outcomes0);
        assert(outs@ =~= Seq::<Option<APIErr>>::empty());
        assert(shadow_outcomes(fly@) =~= Seq::<Option<APIErr>>::empty());
    }
    b.finish();
    b.into_info()
}

} // verus!
