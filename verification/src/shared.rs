use vstd::prelude::*;
use vstd::rwlock::*;
use std::sync::Arc;
use crate::error::APIErr;

verus! {

// The progress state one batch shares between the orchestrator, its
// tasks, and the polling caller.  The state itself is a plain record
// with exactly specified transitions; a reader-writer lock carries it
// between threads, and its invariant keeps every stored value
// well-formed.  The two handles below split the lock capability-wise:
// the updater writes, the observer polls and moves the cap.

/// The first position at or after `i` in `ids` holding exactly `x`.
pub open spec fn find_id(ids: Seq<Seq<char>>, x: Seq<char>, i: int) -> Option<int>
    decreases ids.len() - i
        when 0 <= i
{
    if i >= ids.len() {
        None
    } else if ids[i] == x {
        Some(i)
    } else {
        find_id(ids, x, i + 1)
    }
}

pub proof fn lemma_find_id_bounds(ids: Seq<Seq<char>>, x: Seq<char>, i: int, j: int)
    requires
        0 <= i,
        find_id(ids, x, i) == Some(j),
    ensures
        i <= j < ids.len(),
        ids[j] == x,
        forall|k: int| i <= k < j ==> ids[k] != x,
    decreases ids.len() - i,
{
    if i < ids.len() && ids[i] != x {
        lemma_find_id_bounds(ids, x, i + 1, j);
    }
}

/// The progress record of one batch: how many downloads finished, which
/// identifiers are in flight, which failed and how, the live concurrency
/// cap, and whether the batch is still running.
pub struct SharedInfo {
    pub downloaded: usize,
    pub ongoing_downloads: Vec<String>,
    pub failed_downloads: Vec<(String, APIErr)>,
    pub max_concurrent_downloads: usize,
    pub downloading: bool,
}

impl SharedInfo {
    /// The cap is positive: a cap of zero could never allow a dispatch.
    pub open spec fn wf(self) -> bool {
        self.max_concurrent_downloads >= 1
    }

    /// The in-flight identifiers, as character sequences.
    pub open spec fn in_flight(self) -> Seq<Seq<char>> {
        self.ongoing_downloads.deep_view()
    }

    /// The recorded failures, as (identifier, error kind) pairs.
    pub open spec fn failures(self) -> Seq<(Seq<char>, APIErr)> {
        Seq::new(
            self.failed_downloads@.len(),
            |i: int| (self.failed_downloads@[i].0@, self.failed_downloads@[i].1),
        )
    }

    /// A fresh record: nothing finished, nothing in flight, nothing
    /// failed, not yet running, the cap as given.
    pub fn new(max_concurrent_downloads: usize) -> (s: Self)
        requires
            max_concurrent_downloads >= 1,
        ensures
            s.wf(),
            s.downloaded == 0,
            s.in_flight() =~= Seq::<Seq<char>>::empty(),
            s.failures() =~= Seq::<(Seq<char>, APIErr)>::empty(),
            s.max_concurrent_downloads == max_concurrent_downloads,
            !s.downloading,
    {
        SharedInfo {
            downloaded: 0,
            ongoing_downloads: Vec::new(),
            failed_downloads: Vec::new(),
            max_concurrent_downloads,
            downloading: false,
        }
    }

    /// Builds the shared record behind a lock and hands out the write
    /// side and the read side.
    pub fn create(max_concurrent_downloads: usize) -> (r: (DownloadUpdater, DownloadObserver))
        requires
            max_concurrent_downloads >= 1,
        ensures
            r.0.wf(),
            r.1.wf(),
            r.0.lock() == r.1.lock(),
    {
        let info = SharedInfo::new(max_concurrent_downloads);
        let lock = RwLock::<SharedInfo, SharedPred>::new(info, Ghost(SharedPred {}));
        let shared = Arc::new(lock);
        (DownloadUpdater { info: shared.clone() }, DownloadObserver { info: shared })
    }

    /// A dispatched identifier enters the in-flight set.
    pub fn record_dispatch(&mut self, id: String)
        ensures
            final(self).in_flight() =~= old(self).in_flight().push(id@),
            final(self).downloaded == old(self).downloaded,
            final(self).failed_downloads == old(self).failed_downloads,
            final(self).max_concurrent_downloads == old(self).max_concurrent_downloads,
            final(self).downloading == old(self).downloading,
    {
        self.ongoing_downloads.push(id);
    }

    /// A finished identifier leaves the in-flight set: the first entry
    /// equal to `id` is removed, the last entry taking its place.  A
    /// record that does not hold `id` is left as it is.
    pub fn remove_in_flight(&mut self, id: &String)
        ensures
            match find_id(old(self).in_flight(), id@, 0) {
                Some(j) => final(self).in_flight() =~= old(self).in_flight().update(
                    j,
                    old(self).in_flight().last(),
                ).drop_last(),
                None => final(self).in_flight() =~= old(self).in_flight(),
            },
            final(self).downloaded == old(self).downloaded,
            final(self).failed_downloads == old(self).failed_downloads,
            final(self).max_concurrent_downloads == old(self).max_concurrent_downloads,
            final(self).downloading == old(self).downloading,
    {
        let n = self.ongoing_downloads.len();
        let mut i: usize = 0;
        while i < n
            invariant
                *self == *old(self),
                n == self.ongoing_downloads@.len(),
                0 <= i <= n,
                find_id(self.in_flight(), id@, 0) == find_id(self.in_flight(), id@, i as int),
                forall|k: int| 0 <= k < i ==> self.in_flight()[k] != id@,
            decreases n - i,
        {
            if self.ongoing_downloads[i].eq(id) {
                assert(self.in_flight()[i as int] == self.ongoing_downloads@[i as int]@);
                assert(find_id(self.in_flight(), id@, i as int) == Some(i as int));
                let ghost before = self.in_flight();
                self.ongoing_downloads.swap_remove(i);
                proof {
                    assert(self.in_flight() =~= before.update(i as int, before.last()).drop_last());
                }
                return ;
            }
            assert(self.in_flight()[i as int] != id@);
            i += 1;
        }
    }

    /// A success bumps the completed tally by one.
    pub fn record_success(&mut self)
        requires
            old(self).downloaded < usize::MAX,
        ensures
            final(self).downloaded == old(self).downloaded + 1,
            final(self).ongoing_downloads == old(self).ongoing_downloads,
            final(self).failed_downloads == old(self).failed_downloads,
            final(self).max_concurrent_downloads == old(self).max_concurrent_downloads,
            final(self).downloading == old(self).downloading,
    {
        self.downloaded = self.downloaded + 1;
    }

    /// A failure is recorded, appended to the failure list.
    pub fn record_failure(&mut self, id: String, err: APIErr)
        ensures
            final(self).failures() =~= old(self).failures().push((id@, err)),
            final(self).downloaded == old(self).downloaded,
            final(self).ongoing_downloads == old(self).ongoing_downloads,
            final(self).max_concurrent_downloads == old(self).max_concurrent_downloads,
            final(self).downloading == old(self).downloading,
    {
        self.failed_downloads.push((id, err));
    }
}

/// The lock invariant: every value stored in the shared lock is
/// well-formed.
pub struct SharedPred {}

impl RwLockPredicate<SharedInfo> for SharedPred {
    open spec fn inv(self, v: SharedInfo) -> bool {
        v.wf()
    }
}

/// The read side of the shared progress state.  The caller polls it at
/// any rate from any thread, and moves the concurrency cap through it.
#[derive(Clone)]
pub struct DownloadObserver {
    info: Arc<RwLock<SharedInfo, SharedPred>>,
}

/// The write side of the shared progress state, held by the orchestrator
/// alone: every state transition of a running batch goes through it.
#[derive(Clone)]
pub struct DownloadUpdater {
    info: Arc<RwLock<SharedInfo, SharedPred>>,
}

impl DownloadObserver {
    /// The lock this handle reads.
    pub closed spec fn lock(self) -> RwLock<SharedInfo, SharedPred> {
        *self.info
    }

    /// The handle's lock keeps every stored value well-formed.
    pub open spec fn wf(self) -> bool {
        self.lock().pred() == (SharedPred {  })
    }

    /// How many downloads have finished so far.
    pub fn get_downloaded(&self) -> usize
        requires
            self.wf(),
    {
        let handle = self.info.acquire_read();
        let r = handle.borrow().downloaded;
        handle.release_read();
        r
    }

    /// A snapshot of the identifiers in flight at this instant.
    pub fn ongoing_downloads(&self) -> Vec<String>
        requires
            self.wf(),
    {
        let handle = self.info.acquire_read();
        let r = handle.borrow().ongoing_downloads.clone();
        handle.release_read();
        r
    }

    /// A snapshot of the failures recorded so far, in order.
    pub fn failed_downloads(&self) -> Vec<(String, APIErr)>
        requires
            self.wf(),
    {
        let handle = self.info.acquire_read();
        let snapshot = handle.borrow();
        let mut r: Vec<(String, APIErr)> = Vec::new();
        let n = snapshot.failed_downloads.len();
        let mut i: usize = 0;
        while i < n
            invariant
                n == snapshot.failed_downloads@.len(),
                0 <= i <= n,
            decreases n - i,
        {
            let pair = (snapshot.failed_downloads[i].0.clone(), snapshot.failed_downloads[i].1);
            r.push(pair);
            i += 1;
        }
        handle.release_read();
        r
    }

    /// Moves the concurrency cap.  Future dispatch decisions read the
    /// new value; nothing already dispatched is interrupted.
    pub fn set_max_concurrent_downloads(&self, n: usize)
        requires
            self.wf(),
            n >= 1,
    {
        let (mut info, handle) = self.info.acquire_write();
        info.max_concurrent_downloads = n;
        handle.release_write(info);
    }

    /// Whether a batch is still running.
    pub fn downloading(&self) -> bool
        requires
            self.wf(),
    {
        let handle = self.info.acquire_read();
        let r = handle.borrow().downloading;
        handle.release_read();
        r
    }
}

impl DownloadUpdater {
    /// The lock this handle writes.
    pub closed spec fn lock(self) -> RwLock<SharedInfo, SharedPred> {
        *self.info
    }

    /// The handle's lock keeps every stored value well-formed.
    pub open spec fn wf(self) -> bool {
        self.lock().pred() == (SharedPred {  })
    }

    /// Bumps the completed tally, wrapping around at the type's limit.
    pub fn increment_downloaded(&self)
        requires
            self.wf(),
    {
        let (mut info, handle) = self.info.acquire_write();
        info.downloaded = info.downloaded.wrapping_add(1);
        handle.release_write(info);
    }

    /// Records an identifier as dispatched.
    pub fn add_ongoing_download(&self, id: String)
        requires
            self.wf(),
    {
        let (mut info, handle) = self.info.acquire_write();
        info.record_dispatch(id);
        handle.release_write(info);
    }

    /// Removes a finished identifier from the in-flight set.
    pub fn remove_ongoing_download(&self, id: String)
        requires
            self.wf(),
    {
        let (mut info, handle) = self.info.acquire_write();
        info.remove_in_flight(&id);
        handle.release_write(info);
    }

    /// Records a failed identifier with its error kind.
    pub fn add_failure(&self, id: String, err: APIErr)
        requires
            self.wf(),
    {
        let (mut info, handle) = self.info.acquire_write();
        info.record_failure(id, err);
        handle.release_write(info);
    }

    /// Dispatches `id` if the in-flight count at this instant is below
    /// the live cap.  The check and the recording happen under the same
    /// lock acquisition, so no race between them can push the in-flight
    /// set above the cap read here.
    pub fn try_add_ongoing(&self, id: &String) -> (r: bool)
        requires
            self.wf(),
    {
        let (mut info, handle) = self.info.acquire_write();
        let below = info.ongoing_downloads.len() < info.max_concurrent_downloads;
        if below {
            info.record_dispatch(id.clone());
        }
        handle.release_write(info);
        below
    }

    /// Applies one task's outcome under a single lock acquisition: a
    /// success bumps the completed tally, a failure is recorded with
    /// its identifier, and either way the identifier leaves the
    /// in-flight set.
    pub fn handle_result(&self, id: String, outcome: Result<(), APIErr>)
        requires
            self.wf(),
    {
        let (mut info, handle) = self.info.acquire_write();
        match outcome {
            Ok(_) => {
                info.downloaded = info.downloaded.wrapping_add(1);
            },
            Err(err) => {
                info.record_failure(id.clone(), err);
            },
        }
        info.remove_in_flight(&id);
        handle.release_write(info);
    }

    /// The concurrency cap as of this instant; positive by the lock's
    /// invariant.
    pub fn get_max_concurrent_downloads(&self) -> (r: usize)
        requires
            self.wf(),
        ensures
            r >= 1,
    {
        let handle = self.info.acquire_read();
        let r = handle.borrow().max_concurrent_downloads;
        handle.release_read();
        r
    }

    /// Raises or clears the running flag.
    pub fn set_downloading(&self, b: bool)
        requires
            self.wf(),
    {
        let (mut info, handle) = self.info.acquire_write();
        info.downloading = b;
        handle.release_write(info);
    }

    /// Whether a batch is still running.
    pub fn downloading(&self) -> bool
        requires
            self.wf(),
    {
        let handle = self.info.acquire_read();
        let r = handle.borrow().downloading;
        handle.release_read();
        r
    }
}

} // verus!
