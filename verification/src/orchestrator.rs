use vstd::prelude::*;
use vstd::seq_lib::*;
use crate::codes::str_eq;
use crate::error::APIErr;
use crate::shared::{DownloadObserver, DownloadUpdater, SharedInfo};

verus! {

// The concurrent batch entry point.  `download` sets a batch up and
// returns at once: the observer for the caller to poll, and the
// orchestrator that the surrounding runtime drives.  The orchestrator
// owns the pending queue and makes every dispatch and completion
// decision through the updater, each decision under one lock
// acquisition; the runtime around it only runs tasks and relays their
// outcomes.

/// `s` holds a string equal to `x`.
pub open spec fn contains_str(s: Seq<Seq<char>>, x: Seq<char>) -> bool {
    s.contains(x)
}

/// Whether `v` holds a string equal to `s`.
fn contains_string(v: &Vec<String>, s: &String) -> (r: bool)
    ensures
        r == contains_str(v.deep_view(), s@),
{
    let n = v.len();
    let mut i: usize = 0;
    while i < n
        invariant
            n == v@.len(),
            0 <= i <= n,
            forall|k: int| 0 <= k < i ==> v.deep_view()[k] != s@,
        decreases n - i,
    {
        if str_eq(v[i].as_str(), s.as_str()) {
            assert(v.deep_view()[i as int] == s@);
            return true;
        }
        assert(v.deep_view()[i as int] != s@);
        i += 1;
    }
    assert(forall|k: int| 0 <= k < v.deep_view().len() ==> v.deep_view()[k] != s@);
    false
}

/// Keeps the identifiers that are not already present locally, in
/// order.
fn retain_new(ids: Vec<String>, local: &Vec<String>) -> (r: Vec<String>)
    ensures
        r.deep_view() == ids.deep_view().filter(
            |id: Seq<char>| !contains_str(local.deep_view(), id),
        ),
{
    let ghost pred = |id: Seq<char>| !contains_str(local.deep_view(), id);
    let n = ids.len();
    let mut r: Vec<String> = Vec::new();
    let mut i: usize = 0;
    proof {
        assert(ids.deep_view().take(0) =~= Seq::<Seq<char>>::empty());
        reveal(Seq::filter);
    }
    while i < n
        invariant
            n == ids@.len(),
            0 <= i <= n,
            pred == (|id: Seq<char>| !contains_str(local.deep_view(), id)),
            r.deep_view() == ids.deep_view().take(i as int).filter(pred),
        decreases n - i,
    {
        let ghost rpre = r.deep_view();
        let keep = !contains_string(local, &ids[i]);
        if keep {
            r.push(ids[i].clone());
        }
        proof {
            reveal(Seq::filter);
            let taken = ids.deep_view().take(i + 1);
            assert(taken.drop_last() =~= ids.deep_view().take(i as int));
            assert(taken.last() == ids.deep_view()[i as int]);
            if keep {
                assert(r.deep_view() =~= rpre.push(ids.deep_view()[i as int]));
            }
        }
        i += 1;
    }
    proof {
        assert(ids.deep_view().take(n as int) =~= ids.deep_view());
    }
    r
}

/// The driver of one running batch: the pending queue, the destination
/// directory, and the write side of the shared progress state.  The
/// surrounding runtime calls `try_dispatch` for work, runs the task it
/// is handed, and reports each task's outcome back through
/// `on_completion`; `finish` ends the batch once everything is drained.
pub struct Orchestrator {
    pending: Vec<String>,
    dir: String,
    updater: DownloadUpdater,
}

impl Orchestrator {
    /// The updater's lock keeps every stored value well-formed.
    pub closed spec fn wf(self) -> bool {
        self.updater.wf()
    }

    /// The identifiers not yet dispatched.
    pub closed spec fn pending_ids(self) -> Seq<Seq<char>> {
        self.pending.deep_view()
    }

    /// The destination directory tasks unpack into.
    pub closed spec fn dir_view(self) -> Seq<char> {
        self.dir@
    }

    /// How many identifiers are still pending.
    pub fn pending_count(&self) -> (r: usize)
        ensures
            r == self.pending_ids().len(),
    {
        self.pending.len()
    }

    /// The destination directory tasks unpack into.
    pub fn dir(&self) -> (r: &str)
        ensures
            r@ == self.dir_view(),
    {
        self.dir.as_str()
    }

    /// Decides one dispatch.  If identifiers are pending and the
    /// in-flight count at this instant is below the live cap — checked
    /// and recorded under one lock acquisition — the most recently
    /// queued identifier moves into the in-flight set and is returned
    /// for its task to be started.  `None` when nothing is pending or
    /// the cap is reached; the pending queue is untouched then.
    pub fn try_dispatch(&mut self) -> (r: Option<String>)
        requires
            old(self).wf(),
        ensures
            final(self).wf(),
            final(self).dir_view() == old(self).dir_view(),
            match r {
                Some(id) => old(self).pending_ids().len() > 0 && id@ == old(
                    self,
                ).pending_ids().last() && final(self).pending_ids() == old(
                    self,
                ).pending_ids().drop_last(),
                None => final(self).pending_ids() == old(self).pending_ids(),
            },
    {
        if self.pending.len() == 0 {
            return None;
        }
        let id = self.pending.pop().unwrap();
        if self.updater.try_add_ongoing(&id) {
            Some(id)
        } else {
            self.pending.push(id);
            proof {
                assert(self.pending.deep_view() =~= old(self).pending.deep_view());
            }
            None
        }
    }

    /// Reports one task's outcome: the shared state takes the
    /// completion or the failure, and the identifier leaves the
    /// in-flight set.
    pub fn on_completion(&self, id: String, outcome: Result<(), APIErr>)
        requires
            self.wf(),
    {
        self.updater.handle_result(id, outcome);
    }

    /// Ends a drained batch: the running flag falls, and with it the
    /// observer's `downloading` answer.
    pub fn finish(&self)
        requires
            self.wf(),
    {
        self.updater.set_downloading(false);
    }
}

/// Begins a download batch and returns at once.  Identifiers already
/// present locally are dropped; the shared progress state is created
/// with the given cap and marked running; the caller gets the observer
/// to poll, and the orchestrator that the surrounding runtime drives
/// until the batch is drained.
pub fn download(
    id_list: Vec<String>,
    local_list: Vec<String>,
    dir: String,
    max_concurrent_downloads: usize,
) -> (r: (Orchestrator, DownloadObserver))
    requires
        max_concurrent_downloads >= 1,
    ensures
        r.0.wf(),
        r.1.wf(),
        r.0.pending_ids() == id_list.deep_view().filter(
            |id: Seq<char>| !contains_str(local_list.deep_view(), id),
        ),
        r.0.dir_view() == dir@,
{
    let pending = retain_new(id_list, &local_list);
    let (updater, observer) = SharedInfo::create(max_concurrent_downloads);
    updater.set_downloading(true);
    (Orchestrator { pending, dir, updater }, observer)
}

} // verus!
