//! The workers of the threads: one for each, which claims and runs one dispatch
//! at a time.

use vstd::prelude::*;

use crate::lists::{lists, names};
use crate::text::same_text;

verus! {

/// What a worker does. `H` is what its driver keeps for a run under way, such as
/// the lease renewal and the event sink.
#[derive(Debug, PartialEq)]
pub enum MailboxWorkerStatus<H> {
    Idle,
    Claiming,
    Running { dispatch_id: String, run_id: String, handle: H },
}

/// A worker and the context of its thread that it has cached.
#[derive(Debug, PartialEq)]
pub struct MailboxWorker<H, C> {
    pub status: MailboxWorkerStatus<H>,
    pub thread_ctx: Option<C>,
}

/// A worker as it is first created.
pub open spec fn idle_worker<H, C>() -> MailboxWorker<H, C> {
    MailboxWorker { status: MailboxWorkerStatus::Idle, thread_ctx: None }
}

struct WorkerEntry<H, C> {
    thread_id: String,
    worker: MailboxWorker<H, C>,
}

/// The workers of all threads.
pub struct WorkerTable<H, C> {
    entries: Vec<WorkerEntry<H, C>>,
}

impl<H, C> View for WorkerTable<H, C> {
    type V = Map<Seq<char>, MailboxWorker<H, C>>;

    closed spec fn view(&self) -> Map<Seq<char>, MailboxWorker<H, C>> {
        Map::new(|k: Seq<char>| self.holds(k), |k: Seq<char>| self.entries@[self.index(k)].worker)
    }
}

/// The workers once a thread has one.
pub open spec fn with_worker<H, C>(
    workers: Map<Seq<char>, MailboxWorker<H, C>>,
    thread_id: Seq<char>,
) -> Map<Seq<char>, MailboxWorker<H, C>> {
    if workers.dom().contains(thread_id) {
        workers
    } else {
        workers.insert(thread_id, idle_worker())
    }
}

/// Whether a thread has a worker that may claim a dispatch.
pub open spec fn may_claim<H, C>(
    workers: Map<Seq<char>, MailboxWorker<H, C>>,
    thread_id: Seq<char>,
) -> bool {
    workers.dom().contains(thread_id) && workers[thread_id].status is Idle
}

/// The workers with the status of one of them replaced.
pub open spec fn with_status<H, C>(
    workers: Map<Seq<char>, MailboxWorker<H, C>>,
    thread_id: Seq<char>,
    status: MailboxWorkerStatus<H>,
) -> Map<Seq<char>, MailboxWorker<H, C>> {
    workers.insert(thread_id, MailboxWorker { status, ..workers[thread_id] })
}

/// The workers after one of them turned to claiming, if it was idle.
pub open spec fn after_claim<H, C>(
    workers: Map<Seq<char>, MailboxWorker<H, C>>,
    thread_id: Seq<char>,
) -> Map<Seq<char>, MailboxWorker<H, C>> {
    if may_claim(workers, thread_id) {
        with_status(workers, thread_id, MailboxWorkerStatus::Claiming)
    } else {
        workers
    }
}

/// The workers after a claim that found nothing was taken back.
pub open spec fn after_revert<H, C>(
    workers: Map<Seq<char>, MailboxWorker<H, C>>,
    thread_id: Seq<char>,
) -> Map<Seq<char>, MailboxWorker<H, C>> {
    if workers.dom().contains(thread_id) && workers[thread_id].status is Claiming {
        with_status(workers, thread_id, MailboxWorkerStatus::Idle)
    } else {
        workers
    }
}

/// The workers after one of them began to run a dispatch.
pub open spec fn after_start<H, C>(
    workers: Map<Seq<char>, MailboxWorker<H, C>>,
    thread_id: Seq<char>,
    dispatch_id: String,
    run_id: String,
    handle: H,
    thread_ctx: Option<C>,
) -> Map<Seq<char>, MailboxWorker<H, C>> {
    workers.insert(
        thread_id,
        MailboxWorker {
            status: MailboxWorkerStatus::Running { dispatch_id, run_id, handle },
            thread_ctx,
        },
    )
}

/// Whether a thread's worker runs a dispatch.
pub open spec fn runs<H, C>(
    workers: Map<Seq<char>, MailboxWorker<H, C>>,
    thread_id: Seq<char>,
    dispatch: Seq<char>,
) -> bool {
    &&& workers.dom().contains(thread_id)
    &&& workers[thread_id].status matches MailboxWorkerStatus::Running { dispatch_id, .. }
        && dispatch_id@ == dispatch
}

/// The workers after the execution of a dispatch ended. A worker that runs
/// another one by now is left alone.
pub open spec fn after_finish<H, C>(
    workers: Map<Seq<char>, MailboxWorker<H, C>>,
    thread_id: Seq<char>,
    dispatch: Seq<char>,
) -> Map<Seq<char>, MailboxWorker<H, C>> {
    if runs(workers, thread_id, dispatch) {
        workers.insert(thread_id, idle_worker())
    } else {
        with_worker(workers, thread_id)
    }
}

/// The workers after the named ones that are idle were removed.
pub open spec fn after_collection<H, C>(
    workers: Map<Seq<char>, MailboxWorker<H, C>>,
    threads: Seq<String>,
) -> Map<Seq<char>, MailboxWorker<H, C>> {
    workers.restrict(
        workers.dom().filter(
            |k: Seq<char>| !(names(threads, k) && workers[k].status is Idle),
        ),
    )
}

/// What came of an attempt to claim a dispatch for a thread.
#[derive(Clone, Copy, Debug, PartialEq, Eq, Structural)]
pub enum ClaimStart {
    NoWorker,
    Busy,
    Claiming,
}

impl<H, C> WorkerTable<H, C> {
    spec fn holds(&self, k: Seq<char>) -> bool {
        exists|i: int| 0 <= i < self.entries@.len() && #[trigger] self.entries@[i].thread_id@ == k
    }

    spec fn index(&self, k: Seq<char>) -> int {
        choose|i: int| 0 <= i < self.entries@.len() && #[trigger] self.entries@[i].thread_id@ == k
    }

    /// Whether no thread has two workers.
    pub closed spec fn wf(&self) -> bool {
        forall|i: int, j: int|
            0 <= i < j < self.entries@.len() ==> (#[trigger] self.entries@[i]).thread_id@ != (
            #[trigger] self.entries@[j]).thread_id@
    }

    proof fn lemma_entry(&self, i: int)
        requires
            self.wf(),
            0 <= i < self.entries@.len(),
        ensures
            self@.dom().contains(self.entries@[i].thread_id@),
            self@[self.entries@[i].thread_id@] == self.entries@[i].worker,
    {
        let k = self.entries@[i].thread_id@;
        assert(self.holds(k));
        let j = self.index(k);
        assert(self.entries@[j].thread_id@ == k);
        assert(j == i);
    }

    proof fn lemma_absent(&self, k: Seq<char>)
        requires
            forall|i: int| 0 <= i < self.entries@.len() ==> #[trigger] self.entries@[i].thread_id@ != k,
        ensures
            !self@.dom().contains(k),
    {
        assert(!self.holds(k));
    }

    /// Replacing the worker of one entry replaces it in the table.
    proof fn lemma_replaced(before: &Self, after: &Self, i: int)
        requires
            before.wf(),
            0 <= i < before.entries@.len(),
            after.entries@.len() == before.entries@.len(),
            after.entries@[i].thread_id == before.entries@[i].thread_id,
            forall|j: int|
                0 <= j < before.entries@.len() && j != i ==> #[trigger] after.entries@[j]
                    == before.entries@[j],
        ensures
            after.wf(),
            after@ == before@.insert(before.entries@[i].thread_id@, after.entries@[i].worker),
    {
        assert forall|a: int, b: int|
            0 <= a < b < after.entries@.len() implies (#[trigger] after.entries@[a]).thread_id@ != (
        #[trigger] after.entries@[b]).thread_id@ by {
            assert(before.entries@[a].thread_id@ != before.entries@[b].thread_id@);
        }
        let key = before.entries@[i].thread_id@;
        let expected = before@.insert(key, after.entries@[i].worker);
        assert forall|k: Seq<char>| after@.dom().contains(k) == expected.dom().contains(k) by {
            if after.holds(k) {
                let j = after.index(k);
                before.lemma_entry(j);
                assert(before.entries@[j].thread_id@ == k);
            }
            if before.holds(k) {
                let j = before.index(k);
                assert(after.entries@[j].thread_id@ == k);
                after.lemma_entry(j);
            }
            after.lemma_entry(i);
        }
        assert forall|k: Seq<char>| after@.dom().contains(k) implies after@[k] == expected[k] by {
            let j = after.index(k);
            assert(after.holds(k));
            after.lemma_entry(j);
            before.lemma_entry(j);
            if j != i {
                assert(before.entries@[j].thread_id@ != key || j == i) by {
                    if before.entries@[j].thread_id@ == key {
                        if j < i {
                            assert(before.entries@[j].thread_id@ != before.entries@[i].thread_id@);
                        } else {
                            assert(before.entries@[i].thread_id@ != before.entries@[j].thread_id@);
                        }
                    }
                }
            }
        }
        assert(after@ =~= expected);
    }

    /// A table without workers.
    pub fn new() -> (r: Self)
        ensures
            r.wf(),
            r@ == Map::<Seq<char>, MailboxWorker<H, C>>::empty(),
    {
        let r = WorkerTable { entries: Vec::new() };
        assert forall|k: Seq<char>| !r@.dom().contains(k) by {
            r.lemma_absent(k);
        }
        assert(r@ =~= Map::<Seq<char>, MailboxWorker<H, C>>::empty());
        r
    }

    fn find(&self, thread_id: &str) -> (r: Option<usize>)
        requires
            self.wf(),
        ensures
            match r {
                Some(i) => i < self.entries@.len() && self.entries@[i as int].thread_id@
                    == thread_id@ && self@.dom().contains(thread_id@) && self@[thread_id@]
                    == self.entries@[i as int].worker,
                None => !self@.dom().contains(thread_id@) && forall|i: int|
                    0 <= i < self.entries@.len() ==> #[trigger] self.entries@[i].thread_id@
                        != thread_id@,
            },
    {
        let mut i: usize = 0;
        while i < self.entries.len()
            invariant
                i <= self.entries@.len(),
                self.wf(),
                forall|k: int|
                    0 <= k < i ==> #[trigger] self.entries@[k].thread_id@ != thread_id@,
            decreases self.entries@.len() - i,
        {
            if same_text(self.entries[i].thread_id.as_str(), thread_id) {
                proof {
                    self.lemma_entry(i as int);
                }
                return Some(i);
            }
            i = i + 1;
        }
        proof {
            self.lemma_absent(thread_id@);
        }
        None
    }

    /// The worker of a thread.
    pub fn get(&self, thread_id: &str) -> (r: Option<&MailboxWorker<H, C>>)
        requires
            self.wf(),
        ensures
            match r {
                Some(worker) => self@.dom().contains(thread_id@) && *worker == self@[thread_id@],
                None => !self@.dom().contains(thread_id@),
            },
    {
        match self.find(thread_id) {
            Some(i) => Some(&self.entries[i].worker),
            None => None,
        }
    }

    /// The dispatch and the run that a thread's worker runs.
    pub fn active_run(&self, thread_id: &str) -> (r: Option<(String, String)>)
        requires
            self.wf(),
        ensures
            match r {
                Some((dispatch_id, run_id)) => self@.dom().contains(thread_id@) && (
                self@[thread_id@].status matches MailboxWorkerStatus::Running {
                    dispatch_id: d,
                    run_id: u,
                    ..
                } && d == dispatch_id && u == run_id),
                None => !(self@.dom().contains(thread_id@) && self@[thread_id@].status is Running),
            },
    {
        match self.get(thread_id) {
            Some(worker) => match &worker.status {
                MailboxWorkerStatus::Running { dispatch_id, run_id, .. } => Some(
                    (dispatch_id.clone(), run_id.clone()),
                ),
                _ => None,
            },
            None => None,
        }
    }

    /// What the driver keeps for the run under way on a thread. An event sink can
    /// be reconnected exactly where there is one.
    pub fn reconnect_sink(&self, thread_id: &str) -> (r: Option<&H>)
        requires
            self.wf(),
        ensures
            match r {
                Some(handle) => self@.dom().contains(thread_id@) && (
                self@[thread_id@].status matches MailboxWorkerStatus::Running { handle: h, .. }
                    && h == *handle),
                None => !(self@.dom().contains(thread_id@) && self@[thread_id@].status is Running),
            },
    {
        match self.get(thread_id) {
            Some(worker) => match &worker.status {
                MailboxWorkerStatus::Running { handle, .. } => Some(handle),
                _ => None,
            },
            None => None,
        }
    }

    /// Make sure that a thread has a worker.
    pub fn get_or_create_worker(&mut self, thread_id: &String)
        requires
            old(self).wf(),
        ensures
            final(self).wf(),
            final(self)@ == with_worker(old(self)@, thread_id@),
    {
        match self.find(thread_id.as_str()) {
            Some(_) => {},
            None => {
                self.entries.push(
                    WorkerEntry {
                        thread_id: thread_id.clone(),
                        worker: MailboxWorker {
                            status: MailboxWorkerStatus::Idle,
                            thread_ctx: None,
                        },
                    },
                );
                proof {
                    let n = old(self).entries@.len() as int;
                    assert forall|k: Seq<char>|
                        self@.dom().contains(k) == with_worker(
                            old(self)@,
                            thread_id@,
                        ).dom().contains(k) by {
                        if self.holds(k) {
                            let j = self.index(k);
                            if j < n {
                                assert(old(self).entries@[j].thread_id@ == k);
                            }
                        }
                        if old(self).holds(k) {
                            let j = old(self).index(k);
                            assert(self.entries@[j].thread_id@ == k);
                        }
                        assert(self.entries@[n].thread_id@ == thread_id@);
                    }
                    assert forall|k: Seq<char>| self@.dom().contains(k) implies self@[k]
                        == with_worker(old(self)@, thread_id@)[k] by {
                        let j = self.index(k);
                        assert(self.holds(k));
                        self.lemma_entry(j);
                        if j < n {
                            old(self).lemma_entry(j);
                            assert(old(self).entries@[j].thread_id@ != thread_id@);
                        }
                    }
                    assert(self@ =~= with_worker(old(self)@, thread_id@));
                }
            },
        }
    }

    /// Turn an idle worker to claiming.
    pub fn try_claim(&mut self, thread_id: &str) -> (r: ClaimStart)
        requires
            old(self).wf(),
        ensures
            final(self).wf(),
            final(self)@ == after_claim(old(self)@, thread_id@),
            r == (if !old(self)@.dom().contains(thread_id@) {
                ClaimStart::NoWorker
            } else if may_claim(old(self)@, thread_id@) {
                ClaimStart::Claiming
            } else {
                ClaimStart::Busy
            }),
    {
        match self.find(thread_id) {
            None => ClaimStart::NoWorker,
            Some(i) => {
                let idle = match &self.entries[i].worker.status {
                    MailboxWorkerStatus::Idle => true,
                    _ => false,
                };
                if !idle {
                    return ClaimStart::Busy;
                }
                self.set_status(i, MailboxWorkerStatus::Claiming);
                ClaimStart::Claiming
            },
        }
    }

    fn set_status(&mut self, i: usize, status: MailboxWorkerStatus<H>) -> (replaced:
        MailboxWorkerStatus<H>)
        requires
            old(self).wf(),
            i < old(self).entries@.len(),
        ensures
            final(self).wf(),
            replaced == old(self).entries@[i as int].worker.status,
            final(self)@ == with_status(
                old(self)@,
                old(self).entries@[i as int].thread_id@,
                status,
            ),
    {
        let mut swapped = status;
        let entry = &mut self.entries[i];
        std::mem::swap(&mut entry.worker.status, &mut swapped);
        proof {
            old(self).lemma_entry(i as int);
            Self::lemma_replaced(old(self), self, i as int);
        }
        swapped
    }

    /// Take a claim back, but only if the worker is still claiming.
    pub fn revert_claiming_to_idle(&mut self, thread_id: &str)
        requires
            old(self).wf(),
        ensures
            final(self).wf(),
            final(self)@ == after_revert(old(self)@, thread_id@),
    {
        match self.find(thread_id) {
            None => {},
            Some(i) => {
                let claiming = match &self.entries[i].worker.status {
                    MailboxWorkerStatus::Claiming => true,
                    _ => false,
                };
                if claiming {
                    self.set_status(i, MailboxWorkerStatus::Idle);
                }
            },
        }
    }

    /// Let the worker of a thread run a dispatch, with the context of the thread
    /// that was loaded for it. A thread without a worker gets one.
    pub fn start_running(
        &mut self,
        thread_id: &String,
        dispatch_id: String,
        run_id: String,
        handle: H,
        thread_ctx: Option<C>,
    )
        requires
            old(self).wf(),
        ensures
            final(self).wf(),
            final(self)@ == after_start(
                old(self)@,
                thread_id@,
                dispatch_id,
                run_id,
                handle,
                thread_ctx,
            ),
    {
        self.get_or_create_worker(thread_id);
        match self.find(thread_id.as_str()) {
            None => {},
            Some(i) => {
                let ghost middle = *self;
                let entry = &mut self.entries[i];
                entry.worker = MailboxWorker {
                    status: MailboxWorkerStatus::Running { dispatch_id, run_id, handle },
                    thread_ctx,
                };
                proof {
                    Self::lemma_replaced(&middle, self, i as int);
                    assert(self@ =~= after_start(
                        old(self)@,
                        thread_id@,
                        dispatch_id,
                        run_id,
                        handle,
                        thread_ctx,
                    ));
                }
            },
        }
    }

    /// Return the worker that ran a dispatch to idle and drop its cached context.
    /// Returns what its driver kept, so that the lease renewal can be stopped.
    pub fn finish_execution(&mut self, thread_id: &String, dispatch_id: &str) -> (r: Option<H>)
        requires
            old(self).wf(),
        ensures
            final(self).wf(),
            final(self)@ == after_finish(old(self)@, thread_id@, dispatch_id@),
            r == (if runs(old(self)@, thread_id@, dispatch_id@) {
                Some(old(self)@[thread_id@].status->handle)
            } else {
                None
            }),
    {
        self.get_or_create_worker(thread_id);
        match self.find(thread_id.as_str()) {
            None => None,
            Some(i) => {
                let own = match &self.entries[i].worker.status {
                    MailboxWorkerStatus::Running { dispatch_id: running, .. } => same_text(
                        running.as_str(),
                        dispatch_id,
                    ),
                    _ => false,
                };
                if !own {
                    return None;
                }
                let ghost middle = *self;
                let mut swapped = MailboxWorker {
                    status: MailboxWorkerStatus::Idle,
                    thread_ctx: None,
                };
                let entry = &mut self.entries[i];
                std::mem::swap(&mut entry.worker, &mut swapped);
                proof {
                    Self::lemma_replaced(&middle, self, i as int);
                    assert(self@ =~= after_finish(old(self)@, thread_id@, dispatch_id@));
                }
                match swapped.status {
                    MailboxWorkerStatus::Running { dispatch_id: _, run_id: _, handle } => Some(
                        handle,
                    ),
                    _ => None,
                }
            },
        }
    }

    /// Replace the cached context of a thread, where its worker has one.
    pub fn refresh_worker_checkpoint_cache(&mut self, thread_id: &str, thread_ctx: C)
        requires
            old(self).wf(),
        ensures
            final(self).wf(),
            final(self)@ == (if old(self)@.dom().contains(thread_id@)
                && old(self)@[thread_id@].thread_ctx is Some {
                old(self)@.insert(
                    thread_id@,
                    MailboxWorker { thread_ctx: Some(thread_ctx), ..old(self)@[thread_id@] },
                )
            } else {
                old(self)@
            }),
    {
        match self.find(thread_id) {
            None => {},
            Some(i) => {
                if self.entries[i].worker.thread_ctx.is_some() {
                    let entry = &mut self.entries[i];
                    entry.worker.thread_ctx = Some(thread_ctx);
                    proof {
                        Self::lemma_replaced(old(self), self, i as int);
                    }
                }
            },
        }
    }

    /// The threads whose workers are idle.
    pub fn idle_threads(&self) -> (r: Vec<String>)
        requires
            self.wf(),
        ensures
            forall|k: Seq<char>| names(r@, k) == may_claim(self@, k),
    {
        let mut out: Vec<String> = Vec::new();
        let mut i: usize = 0;
        while i < self.entries.len()
            invariant
                i <= self.entries@.len(),
                self.wf(),
                forall|j: int|
                    0 <= j < i && (#[trigger] self.entries@[j]).worker.status is Idle ==> names(
                        out@,
                        self.entries@[j].thread_id@,
                    ),
                forall|j: int| 0 <= j < out@.len() ==> may_claim(self@, (#[trigger] out@[j])@),
            decreases self.entries@.len() - i,
        {
            proof {
                self.lemma_entry(i as int);
            }
            let idle = match &self.entries[i].worker.status {
                MailboxWorkerStatus::Idle => true,
                _ => false,
            };
            let ghost before = out@;
            if idle {
                out.push(self.entries[i].thread_id.clone());
                proof {
                    assert(out@[before.len() as int]@ == self.entries@[i as int].thread_id@);
                    assert forall|j: int|
                        0 <= j < i + 1 && (
                        #[trigger] self.entries@[j]).worker.status is Idle implies names(
                        out@,
                        self.entries@[j].thread_id@,
                    ) by {
                        if j < i {
                            let m = choose|m: int|
                                0 <= m < before.len() && #[trigger] before[m]@
                                    == self.entries@[j].thread_id@;
                            assert(out@[m]@ == self.entries@[j].thread_id@);
                        }
                    }
                }
            }
            i = i + 1;
        }
        assert forall|k: Seq<char>| names(out@, k) == may_claim(self@, k) by {
            if may_claim(self@, k) {
                let j = self.index(k);
                assert(self.holds(k));
                self.lemma_entry(j);
                assert(self.entries@[j].worker.status is Idle);
            }
        }
        out
    }

    /// How many workers there are.
    pub closed spec fn count(&self) -> nat {
        self.entries@.len()
    }

    /// The table holds as many workers as it counts.
    pub proof fn lemma_count(&self)
        requires
            self.wf(),
        ensures
            self@.dom().finite(),
            self@.dom().len() == self.count(),
    {
        let keys = self.entries@.map_values(|e: WorkerEntry<H, C>| e.thread_id@);
        assert(keys.no_duplicates()) by {
            assert forall|i: int, j: int|
                0 <= i < keys.len() && 0 <= j < keys.len() && i != j implies keys[i] != keys[j] by {
                if i < j {
                    assert(self.entries@[i].thread_id@ != self.entries@[j].thread_id@);
                } else {
                    assert(self.entries@[j].thread_id@ != self.entries@[i].thread_id@);
                }
            }
        }
        keys.unique_seq_to_set();
        assert forall|k: Seq<char>| self@.dom().contains(k) == keys.to_set().contains(k) by {
            if self.holds(k) {
                let j = self.index(k);
                assert(keys[j] == k);
            }
            if keys.to_set().contains(k) {
                let j = choose|j: int| 0 <= j < keys.len() && keys[j] == k;
                self.lemma_entry(j);
            }
        }
        assert(self@.dom() =~= keys.to_set());
    }

    /// Remove the workers of the named threads that are still idle. Returns how
    /// many were removed.
    pub fn gc_idle_workers(&mut self, threads: &Vec<String>) -> (removed: usize)
        requires
            old(self).wf(),
        ensures
            final(self).wf(),
            final(self)@ == after_collection(old(self)@, threads@),
            removed == old(self).count() - final(self).count(),
    {
        let ghost before = *self;
        let ghost all = self.entries@;
        let total: usize = self.entries.len();
        let mut kept: Vec<WorkerEntry<H, C>> = Vec::new();
        let ghost mut from: Seq<int> = Seq::empty();
        assert(all.take(total as int) =~= all);
        while self.entries.len() > 0
            invariant
                before.wf(),
                all == before.entries@,
                total == all.len(),
                self.entries@.len() <= total,
                self.entries@ == all.take(self.entries@.len() as int),
                from.len() == kept@.len(),
                kept@.len() <= total - self.entries@.len(),
                forall|m: int|
                    0 <= m < kept@.len() ==> self.entries@.len() <= #[trigger] from[m] < total
                        && kept@[m] == all[from[m]],
                forall|m: int|
                    0 <= m < kept@.len() ==> !(names(threads@, (#[trigger] kept@[m]).thread_id@)
                        && kept@[m].worker.status is Idle),
                forall|m: int, n: int|
                    0 <= m < n < kept@.len() ==> #[trigger] from[m] > #[trigger] from[n],
                forall|j: int|
                    self.entries@.len() <= j < total && !(names(
                        threads@,
                        (#[trigger] all[j]).thread_id@,
                    ) && all[j].worker.status is Idle) ==> from.contains(j),
            decreases self.entries@.len(),
        {
            let ghost n = self.entries@.len() as int - 1;
            let ghost was = from;
            match self.entries.pop() {
                Some(entry) => {
                    assert(entry == all[n]);
                    assert(self.entries@ =~= all.take(n));
                    let idle = match &entry.worker.status {
                        MailboxWorkerStatus::Idle => true,
                        _ => false,
                    };
                    let named = lists(threads, &entry.thread_id);
                    if !(named && idle) {
                        kept.push(entry);
                        proof {
                            from = from.push(n);
                            assert(from[was.len() as int] == n);
                            assert forall|j: int|
                                n <= j < total && !(names(
                                    threads@,
                                    (#[trigger] all[j]).thread_id@,
                                ) && all[j].worker.status is Idle) implies from.contains(j) by {
                                if j > n {
                                    assert(was.contains(j));
                                    let m = choose|m: int| 0 <= m < was.len() && was[m] == j;
                                    assert(from[m] == j);
                                }
                            }
                        }
                    }
                },
                None => {},
            }
        }
        let removed: usize = total - kept.len();
        self.entries = kept;
        proof {
            assert forall|m: int, n: int|
                0 <= m < n < self.entries@.len() implies (
            #[trigger] self.entries@[m]).thread_id@ != (#[trigger] self.entries@[n]).thread_id@ by {
                assert(from[m] > from[n]);
                assert(all[from[n]].thread_id@ != all[from[m]].thread_id@);
            }
            let expected = after_collection(before@, threads@);
            assert forall|k: Seq<char>| self@.dom().contains(k) == expected.dom().contains(k) by {
                if self.holds(k) {
                    let m = self.index(k);
                    assert(self.entries@[m].thread_id@ == k);
                    before.lemma_entry(from[m]);
                }
                if expected.dom().contains(k) {
                    assert(before.holds(k));
                    let j = before.index(k);
                    before.lemma_entry(j);
                    assert(from.contains(j));
                    let m = choose|m: int| 0 <= m < from.len() && from[m] == j;
                    assert(self.entries@[m] == all[from[m]]);
                    assert(self.entries@[m].thread_id@ == k);
                }
            }
            assert forall|k: Seq<char>| self@.dom().contains(k) implies self@[k] == expected[k] by {
                let m = self.index(k);
                assert(self.holds(k));
                self.lemma_entry(m);
                before.lemma_entry(from[m]);
            }
            assert(self@ =~= expected);
        }
        removed
    }
}

/// A thread runs one dispatch at a time: once its worker claims, a second claim is
/// refused until the first is taken back or its execution ends.
pub proof fn lemma_claims_exclude_each_other<H, C>(
    workers: Map<Seq<char>, MailboxWorker<H, C>>,
    thread_id: Seq<char>,
    dispatch_id: String,
    run_id: String,
    handle: H,
    thread_ctx: Option<C>,
)
    ensures
        !may_claim(after_claim(workers, thread_id), thread_id),
        !may_claim(
            after_start(workers, thread_id, dispatch_id, run_id, handle, thread_ctx),
            thread_id,
        ),
{
}

/// Taking back a claim that found nothing restores the worker as it was.
pub proof fn lemma_revert_undoes_claim<H, C>(
    workers: Map<Seq<char>, MailboxWorker<H, C>>,
    thread_id: Seq<char>,
)
    requires
        may_claim(workers, thread_id),
    ensures
        after_revert(after_claim(workers, thread_id), thread_id) == workers,
{
    assert(after_revert(after_claim(workers, thread_id), thread_id) =~= workers);
}

/// Taking back a claim never stops a run: a worker that runs by now is left as it
/// is. The end of one dispatch never stops the run of another.
pub proof fn lemma_running_worker_is_left_alone<H, C>(
    workers: Map<Seq<char>, MailboxWorker<H, C>>,
    thread_id: Seq<char>,
    running: Seq<char>,
    other: Seq<char>,
    threads: Seq<String>,
)
    requires
        runs(workers, thread_id, running),
        other != running,
    ensures
        after_revert(workers, thread_id) == workers,
        after_claim(workers, thread_id) == workers,
        after_finish(workers, thread_id, other) == workers,
        runs(after_collection(workers, threads), thread_id, running),
{
}

/// The end of the dispatch that a worker runs leaves it idle, without a cached
/// context, and ready for the next claim.
pub proof fn lemma_finish_releases_the_worker<H, C>(
    workers: Map<Seq<char>, MailboxWorker<H, C>>,
    thread_id: Seq<char>,
    dispatch_id: String,
    run_id: String,
    handle: H,
    thread_ctx: Option<C>,
)
    ensures
        ({
            let after = after_finish(
                after_start(workers, thread_id, dispatch_id, run_id, handle, thread_ctx),
                thread_id,
                dispatch_id@,
            );
            may_claim(after, thread_id) && after[thread_id].thread_ctx is None
        }),
{
}

/// A collection removes idle workers only, and only those named.
pub proof fn lemma_collection_spares_busy_workers<H, C>(
    workers: Map<Seq<char>, MailboxWorker<H, C>>,
    threads: Seq<String>,
    thread_id: Seq<char>,
)
    requires
        workers.dom().contains(thread_id),
        !may_claim(workers, thread_id) || !names(threads, thread_id),
    ensures
        after_collection(workers, threads).dom().contains(thread_id),
        after_collection(workers, threads)[thread_id] == workers[thread_id],
{
}

/// What is done with the worker of one thread leaves the workers of all others as they
/// are.
pub proof fn lemma_other_threads_are_left_alone<H, C>(
    workers: Map<Seq<char>, MailboxWorker<H, C>>,
    thread_id: Seq<char>,
    other: Seq<char>,
    dispatch_id: String,
    run_id: String,
    handle: H,
    thread_ctx: Option<C>,
)
    requires
        other != thread_id,
    ensures
        with_worker(workers, thread_id).dom().contains(other) == workers.dom().contains(other),
        with_worker(workers, thread_id)[other] == workers[other],
        after_claim(workers, thread_id).dom().contains(other) == workers.dom().contains(other),
        after_claim(workers, thread_id)[other] == workers[other],
        after_revert(workers, thread_id).dom().contains(other) == workers.dom().contains(other),
        after_revert(workers, thread_id)[other] == workers[other],
        after_start(
            workers,
            thread_id,
            dispatch_id,
            run_id,
            handle,
            thread_ctx,
        ).dom().contains(other) == workers.dom().contains(other),
        after_start(workers, thread_id, dispatch_id, run_id, handle, thread_ctx)[other]
            == workers[other],
        after_finish(workers, thread_id, dispatch_id@).dom().contains(other)
            == workers.dom().contains(other),
        after_finish(workers, thread_id, dispatch_id@)[other] == workers[other],
{
}

/// A worker claims for its thread alone: an idle one turns to claiming, keeps what it has
/// cached, and cannot claim again before it is given back; one that claims or runs stays
/// as it is.
pub proof fn lemma_one_claim_at_a_time<H, C>(
    workers: Map<Seq<char>, MailboxWorker<H, C>>,
    thread_id: Seq<char>,
)
    ensures
        workers.dom().contains(thread_id) && workers[thread_id].status is Idle ==> {
            let after = after_claim(workers, thread_id);
            &&& after.dom().contains(thread_id)
            &&& after[thread_id].status is Claiming
            &&& after[thread_id].thread_ctx == workers[thread_id].thread_ctx
            &&& !may_claim(after, thread_id)
        },
        workers.dom().contains(thread_id) && !(workers[thread_id].status is Idle) ==> after_claim(
            workers,
            thread_id,
        ) == workers,
        !workers.dom().contains(thread_id) ==> after_claim(workers, thread_id) == workers,
        workers.dom().contains(thread_id) && !(workers[thread_id].status is Claiming)
            ==> after_revert(workers, thread_id) == workers,
{
}

/// A thread that had no worker gets one that is idle; one that had a worker keeps it.
pub proof fn lemma_worker_is_made_once<H, C>(
    workers: Map<Seq<char>, MailboxWorker<H, C>>,
    thread_id: Seq<char>,
)
    ensures
        with_worker(workers, thread_id).dom().contains(thread_id),
        workers.dom().contains(thread_id) ==> with_worker(workers, thread_id) == workers,
        !workers.dom().contains(thread_id) ==> with_worker(workers, thread_id)[thread_id].status
            is Idle && with_worker(workers, thread_id)[thread_id].thread_ctx is None,
{
}

/// A worker that was started runs the dispatch, for the run, and keeps what its driver and
/// its thread gave it.
pub proof fn lemma_started_worker_runs<H, C>(
    workers: Map<Seq<char>, MailboxWorker<H, C>>,
    thread_id: Seq<char>,
    dispatch_id: String,
    run_id: String,
    handle: H,
    thread_ctx: Option<C>,
)
    ensures
        ({
            let after = after_start(workers, thread_id, dispatch_id, run_id, handle, thread_ctx);
            &&& after.dom().contains(thread_id)
            &&& after[thread_id].status == (MailboxWorkerStatus::Running {
                dispatch_id,
                run_id,
                handle,
            })
            &&& after[thread_id].thread_ctx == thread_ctx
            &&& runs(after, thread_id, dispatch_id@)
            &&& !may_claim(after, thread_id)
        }),
{
}

/// A collection removes the named workers that are idle, all of them.
pub proof fn lemma_collection_removes_the_named<H, C>(
    workers: Map<Seq<char>, MailboxWorker<H, C>>,
    threads: Seq<String>,
    thread_id: Seq<char>,
)
    requires
        names(threads, thread_id),
        workers.dom().contains(thread_id),
        workers[thread_id].status is Idle,
    ensures
        !after_collection(workers, threads).dom().contains(thread_id),
{
}

/// The run of a thread that is under way is found by the thread, with the handle to it;
/// for any other thread there is neither.
pub proof fn lemma_running_worker_is_found<H, C>(
    workers: WorkerTable<H, C>,
    thread_id: &str,
    active: Option<(String, String)>,
    sink: Option<&H>,
)
    requires
        call_ensures(WorkerTable::<H, C>::active_run, (&workers, thread_id), active),
        call_ensures(WorkerTable::<H, C>::reconnect_sink, (&workers, thread_id), sink),
    ensures
        active is Some <==> sink is Some,
        active is Some <==> workers@.dom().contains(thread_id@)
            && workers@[thread_id@].status is Running,
        active matches Some((dispatch_id, run_id)) ==> (
        workers@[thread_id@].status matches MailboxWorkerStatus::Running {
            dispatch_id: d,
            run_id: u,
            handle,
            ..
        } && d == dispatch_id && u == run_id && *(sink->0) == handle),
{
}

} // verus!
