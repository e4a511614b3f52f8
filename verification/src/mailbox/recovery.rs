//! Recovery at startup: what an earlier process left behind is taken up again.

use vstd::prelude::*;

use crate::activation::{
    AdapterKind, RunActivation, RunIntent, RunKind, RunMode, RunOrigin, RunTrace,
};
use crate::dispatch::RunDispatch;
use crate::error::{Fault, StorageError};
use crate::lists::{insert_text, is_ascending, lists, names, reversed};
use crate::mailbox::config::PENDING_RECOVERY_PAGE_SIZE;
use crate::mailbox::server_event_capture::{
    is_dispatch_event, is_rescheduled_event, record_mailbox_dispatch_event,
    record_run_rescheduled_dispatch, EventDraft, EXPIRED_LEASE_RECLAIMED,
};
use crate::message::{text_message, Message, Role, Visibility};
use crate::run::{RunRecord, RunStatus};
use crate::text::same_text;

verus! {

/// A page of run records.
#[derive(Debug, PartialEq)]
pub struct RunPage {
    pub items: Vec<RunRecord>,
    pub has_more: bool,
}

/// Whether a scan goes on after a page, at the offset behind it.
pub open spec fn goes_on_after(page: RunPage) -> bool {
    page.has_more && page.items@.len() > 0
}

/// Whether a run was prepared for a dispatch: it names one, and can be run.
pub open spec fn is_prepared(run: RunRecord) -> bool {
    run.dispatch_id is Some && (run.status == RunStatus::Created || run.resumable())
}

/// Which runs were prepared for a dispatch.
pub open spec fn prepared_ones() -> spec_fn(RunRecord) -> bool {
    |run: RunRecord| is_prepared(run)
}

/// The runs with the prepared ones of a page behind them.
pub open spec fn with_prepared(runs: Seq<RunRecord>, page: Seq<RunRecord>) -> Seq<RunRecord> {
    runs + page.filter(prepared_ones())
}

/// Which runs wait for background tasks.
pub open spec fn background_waits() -> spec_fn(RunRecord) -> bool {
    |run: RunRecord| run.waits_for_background()
}

/// The runs with those of a page that wait for background tasks behind them.
pub open spec fn with_background_waits(runs: Seq<RunRecord>, page: Seq<RunRecord>) -> Seq<
    RunRecord,
> {
    runs + page.filter(background_waits())
}

/// The runs that a scan collects.
#[derive(Clone, Copy)]
enum Wanted {
    Prepared,
    BackgroundWaits,
}

impl Wanted {
    spec fn ones(self) -> spec_fn(RunRecord) -> bool {
        match self {
            Wanted::Prepared => prepared_ones(),
            Wanted::BackgroundWaits => background_waits(),
        }
    }

    fn takes(self, run: &RunRecord) -> (r: bool)
        ensures
            r == self.ones()(*run),
    {
        match self {
            Wanted::Prepared => run.dispatch_id.is_some() && (run.status == RunStatus::Created
                || run.is_resumable_waiting()),
            Wanted::BackgroundWaits => run.is_background_task_waiting(),
        }
    }
}

/// The runs with the wanted ones of a page behind them.
fn keep(wanted: Wanted, runs: Vec<RunRecord>, page: Vec<RunRecord>) -> (r: Vec<RunRecord>)
    ensures
        r@ == runs@ + page@.filter(wanted.ones()),
{
    let ghost ones = wanted.ones();
    let mut out = runs;
    let mut rest = reversed(page);
    let ghost mut done: int = 0;
    assert(page@.take(0).filter(ones) =~= Seq::empty());
    assert(runs@ + Seq::<RunRecord>::empty() =~= runs@);
    while rest.len() > 0
        invariant
            0 <= done <= page@.len(),
            ones == wanted.ones(),
            rest@ == page@.skip(done).reverse(),
            out@ == runs@ + page@.take(done).filter(ones),
        decreases rest@.len(),
    {
        let ghost before = rest@;
        match rest.pop() {
            Some(run) => {
                proof {
                    assert(before.last() == page@[done]);
                    assert(page@.take(done + 1).drop_last() =~= page@.take(done));
                    assert(page@.take(done + 1).last() == page@[done]);
                    assert(rest@ =~= page@.skip(done + 1).reverse());
                    reveal(Seq::filter);
                }
                if wanted.takes(&run) {
                    out.push(run);
                    assert(out@ =~= runs@ + page@.take(done + 1).filter(ones));
                }
                proof {
                    done = done + 1;
                }
            },
            None => {},
        }
    }
    assert(page@.take(done) =~= page@);
    out
}

/// The operation that is due in the recovery of prepared runs.
#[derive(Debug, PartialEq)]
pub enum PreparedStep {
    /// List the runs of a status, from an offset.
    ListRuns { status: RunStatus, offset: usize },
    /// Load the dispatch that the run `at` was prepared for.
    LoadDispatch { at: usize, dispatch_id: String },
    /// Queue the dispatch of the run `at`, which is missing.
    Enqueue { at: usize, dispatch: RunDispatch },
    /// Publish that the run `at` is queued.
    PublishQueued { at: usize, dispatch: RunDispatch },
    /// Let the worker of the thread `at` take up its next dispatch.
    DispatchThread { at: usize },
    /// The recovery is over: how many dispatches were queued.
    Done { outcome: Result<usize, Fault> },
}

/// The reply to the operation of a step. Times are in milliseconds.
#[derive(Debug, PartialEq)]
pub enum PreparedReply {
    Runs(Result<RunPage, StorageError>),
    Dispatch { result: Result<Option<RunDispatch>, StorageError>, now: u64 },
    Queued,
    NotQueued(StorageError),
    Performed,
}

/// The recovery of runs that were prepared for a dispatch which was never queued.
/// The runs are collected before any dispatch is queued, so that queueing does not
/// shift the pages.
#[derive(Debug, PartialEq)]
pub struct PreparedRecovery {
    pub max_attempts: u32,
    pub queued: Vec<String>,
    pub runs: Vec<RunRecord>,
    pub threads: Vec<String>,
    pub total: usize,
    pub step: PreparedStep,
}

/// Whether a reply is one that the operation of the due step gives.
pub open spec fn prepared_answers(recovery: PreparedRecovery, reply: PreparedReply) -> bool {
    match recovery.step {
        PreparedStep::ListRuns { offset, .. } => reply matches PreparedReply::Runs(result) && (
        result matches Ok(page) ==> offset + page.items@.len() <= usize::MAX),
        PreparedStep::LoadDispatch { at, .. } => reply is Dispatch && at < recovery.runs@.len(),
        PreparedStep::Enqueue { at, .. } => (reply is Queued || reply is NotQueued) && at
            < recovery.runs@.len(),
        PreparedStep::PublishQueued { at, .. } => reply is Performed && at < recovery.runs@.len()
            && recovery.total < usize::MAX,
        PreparedStep::DispatchThread { at } => reply is Performed && at < recovery.threads@.len(),
        PreparedStep::Done { .. } => false,
    }
}

/// The first run from `at` on that names a dispatch, or the end.
pub open spec fn next_named(runs: Seq<RunRecord>, at: int) -> int
    decreases runs.len() - at,
{
    if at < 0 || at >= runs.len() {
        runs.len() as int
    } else if runs[at].dispatch_id is Some {
        at
    } else {
        next_named(runs, at + 1)
    }
}

/// The step at a thread that is to be taken up, or behind the last.
pub open spec fn at_thread(threads: Seq<String>, total: usize, at: int) -> PreparedStep {
    if at < threads.len() {
        PreparedStep::DispatchThread { at: at as usize }
    } else {
        PreparedStep::Done { outcome: Ok(total) }
    }
}

/// The step at the next run from `at` on that names a dispatch.
pub open spec fn at_run(
    runs: Seq<RunRecord>,
    threads: Seq<String>,
    total: usize,
    at: int,
) -> PreparedStep {
    let next = next_named(runs, at);
    if next < runs.len() {
        PreparedStep::LoadDispatch {
            at: next as usize,
            dispatch_id: runs[next].dispatch_id->0,
        }
    } else {
        at_thread(threads, total, 0)
    }
}

/// Whether an error says that another process queued this dispatch first.
pub open spec fn is_queued_elsewhere(error: StorageError, dispatch: RunDispatch) -> bool {
    error matches StorageError::AlreadyExists(id) && id@ == dispatch.dispatch_id@
}

/// Whether `after` is what a reply leads to.
pub open spec fn prepared_follows(
    before: PreparedRecovery,
    reply: PreparedReply,
    after: PreparedRecovery,
) -> bool {
    let runs = before.runs@;
    let same_runs = after.runs == before.runs;
    let same_threads = after.threads == before.threads;
    let same_total = after.total == before.total;
    &&& after.max_attempts == before.max_attempts
    &&& after.queued == before.queued
    &&& match (before.step, reply) {
        (PreparedStep::ListRuns { status, offset }, PreparedReply::Runs(result)) => match result {
            Err(error) => same_runs && same_threads && same_total && after.step == (
            PreparedStep::Done { outcome: Err(Fault::Store(error)) }),
            Ok(page) => {
                &&& after.runs@ == with_prepared(runs, page.items@)
                &&& same_threads
                &&& same_total
                &&& after.step == (if goes_on_after(page) {
                    PreparedStep::ListRuns {
                        status,
                        offset: (offset + page.items@.len()) as usize,
                    }
                } else if status == RunStatus::Created {
                    PreparedStep::ListRuns { status: RunStatus::Waiting, offset: 0 }
                } else {
                    at_run(after.runs@, before.threads@, before.total, 0)
                })
            },
        },
        (
            PreparedStep::LoadDispatch { at, dispatch_id },
            PreparedReply::Dispatch { result, now },
        ) => same_runs && same_threads && same_total && after.step == (match result {
            Err(error) => PreparedStep::Done { outcome: Err(Fault::Store(error)) },
            Ok(Some(_)) => at_run(runs, before.threads@, before.total, at + 1),
            Ok(None) => PreparedStep::Enqueue {
                at,
                dispatch: RunDispatch::fresh(
                    dispatch_id,
                    runs[at as int].thread_id,
                    runs[at as int].run_id,
                    now,
                    before.max_attempts,
                ),
            },
        }),
        (PreparedStep::Enqueue { at, dispatch }, PreparedReply::Queued) => same_runs
            && same_threads && same_total && after.step == (PreparedStep::PublishQueued {
            at,
            dispatch,
        }),
        (PreparedStep::Enqueue { at, dispatch }, PreparedReply::NotQueued(error)) => same_runs
            && same_threads && same_total && after.step == (if is_queued_elsewhere(
            error,
            dispatch,
        ) {
            at_run(runs, before.threads@, before.total, at + 1)
        } else {
            PreparedStep::Done { outcome: Err(Fault::Store(error)) }
        }),
        (PreparedStep::PublishQueued { at, .. }, _) => {
            let thread = runs[at as int].thread_id@;
            &&& same_runs
            &&& after.total == before.total + 1
            &&& is_ascending(before.threads@) ==> is_ascending(after.threads@)
            &&& forall|t: Seq<char>| #[trigger]
                names(after.threads@, t) == (names(before.threads@, t) || (t == thread && !names(
                    before.queued@,
                    t,
                )))
            &&& after.step == at_run(runs, after.threads@, after.total, at + 1)
        },
        (PreparedStep::DispatchThread { at }, _) => same_runs && same_threads && same_total
            && after.step == at_thread(before.threads@, before.total, at + 1),
        _ => false,
    }
}

fn thread_step(threads: &Vec<String>, total: usize, at: usize) -> (r: PreparedStep)
    ensures
        r == at_thread(threads@, total, at as int),
{
    if at < threads.len() {
        PreparedStep::DispatchThread { at }
    } else {
        PreparedStep::Done { outcome: Ok(total) }
    }
}

fn run_step(runs: &Vec<RunRecord>, threads: &Vec<String>, total: usize, from: usize) -> (r:
    PreparedStep)
    requires
        from <= runs@.len(),
    ensures
        r == at_run(runs@, threads@, total, from as int),
{
    let mut at: usize = from;
    while at < runs.len()
        invariant
            from <= at <= runs@.len(),
            next_named(runs@, from as int) == next_named(runs@, at as int),
        decreases runs@.len() - at,
    {
        match &runs[at].dispatch_id {
            Some(id) => {
                return PreparedStep::LoadDispatch { at, dispatch_id: id.clone() };
            },
            None => {},
        }
        at = at + 1;
    }
    thread_step(threads, total, 0)
}

/// Whether an event is the one that the due step of a recovery publishes, where it
/// publishes one.
pub open spec fn is_prepared_event(recovery: PreparedRecovery, event: Option<EventDraft>) -> bool {
    match recovery.step {
        PreparedStep::PublishQueued { dispatch, .. } => event matches Some(draft)
            && is_dispatch_event(draft, "RunQueued", dispatch, None, None, None),
        _ => event is None,
    }
}

impl PreparedRecovery {
    /// The event that the due step publishes, where it publishes one.
    pub fn event(&self) -> (r: Option<EventDraft>)
        ensures
            is_prepared_event(*self, r),
    {
        match &self.step {
            PreparedStep::PublishQueued { at: _, dispatch } => Some(
                record_mailbox_dispatch_event("RunQueued", dispatch),
            ),
            _ => None,
        }
    }

    /// Begin the recovery. The threads of `queued` are taken up anyway.
    pub fn recover_prepared_runs_missing_dispatch_wal(max_attempts: u32, queued: Vec<String>) -> (r:
        PreparedRecovery)
        ensures
            r.max_attempts == max_attempts,
            r.queued == queued,
            r.runs@.len() == 0,
            r.threads@.len() == 0,
            r.total == 0,
            r.step == (PreparedStep::ListRuns { status: RunStatus::Created, offset: 0 }),
    {
        PreparedRecovery {
            max_attempts,
            queued,
            runs: Vec::new(),
            threads: Vec::new(),
            total: 0,
            step: PreparedStep::ListRuns { status: RunStatus::Created, offset: 0 },
        }
    }

    /// Whether a reply is one that the operation of the due step gives.
    pub fn expects(&self, reply: &PreparedReply) -> (r: bool)
        ensures
            r == prepared_answers(*self, *reply),
    {
        match (&self.step, reply) {
            (PreparedStep::ListRuns { offset, .. }, PreparedReply::Runs(result)) => match result {
                Ok(page) => *offset <= usize::MAX - page.items.len(),
                Err(_) => true,
            },
            (PreparedStep::LoadDispatch { at, .. }, PreparedReply::Dispatch { .. }) => *at
                < self.runs.len(),
            (PreparedStep::Enqueue { at, .. }, PreparedReply::Queued) => *at < self.runs.len(),
            (PreparedStep::Enqueue { at, .. }, PreparedReply::NotQueued(_)) => *at
                < self.runs.len(),
            (PreparedStep::PublishQueued { at, .. }, PreparedReply::Performed) => *at
                < self.runs.len() && self.total < usize::MAX,
            (PreparedStep::DispatchThread { at }, PreparedReply::Performed) => *at
                < self.threads.len(),
            _ => false,
        }
    }

    /// Take the reply to the operation that was due.
    pub fn advance(self, reply: PreparedReply) -> (r: PreparedRecovery)
        requires
            prepared_answers(self, reply),
        ensures
            prepared_follows(self, reply, r),
    {
        let max_attempts = self.max_attempts;
        let queued = self.queued;
        let runs = self.runs;
        let threads = self.threads;
        let total: usize = self.total;
        let count: usize = runs.len();
        match (self.step, reply) {
            (PreparedStep::ListRuns { status, offset }, PreparedReply::Runs(result)) => {
                match result {
                    Err(error) => PreparedRecovery {
                        max_attempts,
                        queued,
                        runs,
                        threads,
                        total,
                        step: PreparedStep::Done { outcome: Err(Fault::Store(error)) },
                    },
                    Ok(page) => {
                        let length: usize = page.items.len();
                        let more = page.has_more && length > 0;
                        let kept = keep(Wanted::Prepared, runs, page.items);
                        let step = if more {
                            PreparedStep::ListRuns { status, offset: offset + length }
                        } else if status == RunStatus::Created {
                            PreparedStep::ListRuns { status: RunStatus::Waiting, offset: 0 }
                        } else {
                            run_step(&kept, &threads, total, 0)
                        };
                        PreparedRecovery { max_attempts, queued, runs: kept, threads, total, step }
                    },
                }
            },
            (
                PreparedStep::LoadDispatch { at, dispatch_id },
                PreparedReply::Dispatch { result, now },
            ) => {
                assert(at < count);
                let step = match result {
                    Err(error) => PreparedStep::Done { outcome: Err(Fault::Store(error)) },
                    Ok(Some(_)) => run_step(&runs, &threads, total, at + 1),
                    Ok(None) => PreparedStep::Enqueue {
                        at,
                        dispatch: RunDispatch::queued(
                            dispatch_id,
                            runs[at].thread_id.clone(),
                            runs[at].run_id.clone(),
                            now,
                            max_attempts,
                        ),
                    },
                };
                PreparedRecovery { max_attempts, queued, runs, threads, total, step }
            },
            (PreparedStep::Enqueue { at, dispatch }, PreparedReply::Queued) => PreparedRecovery {
                max_attempts,
                queued,
                runs,
                threads,
                total,
                step: PreparedStep::PublishQueued { at, dispatch },
            },
            (PreparedStep::Enqueue { at, dispatch }, PreparedReply::NotQueued(error)) => {
                let elsewhere = match &error {
                    StorageError::AlreadyExists(id) => same_text(
                        id.as_str(),
                        dispatch.dispatch_id.as_str(),
                    ),
                    _ => false,
                };
                assert(at < count);
                let step = if elsewhere {
                    run_step(&runs, &threads, total, at + 1)
                } else {
                    PreparedStep::Done { outcome: Err(Fault::Store(error)) }
                };
                PreparedRecovery { max_attempts, queued, runs, threads, total, step }
            },
            (PreparedStep::PublishQueued { at, .. }, _) => {
                let counted: usize = total + 1;
                let grown = if lists(&queued, &runs[at].thread_id) {
                    threads
                } else {
                    insert_text(threads, runs[at].thread_id.clone())
                };
                let step = run_step(&runs, &grown, counted, at + 1);
                PreparedRecovery {
                    max_attempts,
                    queued,
                    runs,
                    threads: grown,
                    total: counted,
                    step,
                }
            },
            (PreparedStep::DispatchThread { at }, _) => {
                let last: usize = threads.len();
                assert(at < last);
                let step = thread_step(&threads, total, at + 1);
                PreparedRecovery { max_attempts, queued, runs, threads, total, step }
            },
            (step, _) => PreparedRecovery { max_attempts, queued, runs, threads, total, step },
        }
    }
}

/// A recovery of prepared runs: how it stood before each reply, and the replies.
pub open spec fn is_prepared_recovery(
    states: Seq<PreparedRecovery>,
    replies: Seq<PreparedReply>,
) -> bool {
    &&& states.len() == replies.len() + 1
    &&& states[0].runs@.len() == 0
    &&& states[0].threads@.len() == 0
    &&& states[0].step is ListRuns
    &&& forall|i: int|
        #![trigger replies[i]]
        0 <= i < replies.len() ==> prepared_answers(states[i], replies[i]) && prepared_follows(
            states[i],
            replies[i],
            states[i + 1],
        )
}

/// Whether every collected run was prepared.
pub open spec fn all_prepared(runs: Seq<RunRecord>) -> bool {
    forall|i: int| 0 <= i < runs.len() ==> is_prepared(#[trigger] runs[i])
}

proof fn lemma_with_prepared_keeps_all(runs: Seq<RunRecord>, page: Seq<RunRecord>)
    requires
        all_prepared(runs),
    ensures
        all_prepared(with_prepared(runs, page)),
{
    let kept = page.filter(prepared_ones());
    assert forall|i: int| 0 <= i < with_prepared(runs, page).len() implies is_prepared(
        #[trigger] with_prepared(runs, page)[i],
    ) by {
        if i >= runs.len() {
            page.lemma_filter_pred(prepared_ones(), i - runs.len());
            assert(prepared_ones()(kept[i - runs.len()]));
        }
    }
}

proof fn lemma_next_named(runs: Seq<RunRecord>, at: int)
    requires
        0 <= at,
    ensures
        next_named(runs, at) < runs.len() ==> next_named(runs, at) >= at
            && runs[next_named(runs, at)].dispatch_id is Some,
    decreases runs.len() - at,
{
    if at < runs.len() && runs[at].dispatch_id is None {
        lemma_next_named(runs, at + 1);
    }
}

/// What holds of a recovery, however far it is: the runs that it takes up were
/// prepared, the dispatch that it queues for a run is the very one that the run was
/// prepared for, and the threads that it takes up are named once, in order.
pub open spec fn prepared_invariant(recovery: PreparedRecovery) -> bool {
    let runs = recovery.runs@;
    &&& all_prepared(runs)
    &&& is_ascending(recovery.threads@)
    &&& match recovery.step {
        PreparedStep::LoadDispatch { at, dispatch_id } => at < runs.len() && runs[at as int].dispatch_id
            == Some(dispatch_id),
        PreparedStep::Enqueue { at, dispatch } => at < runs.len() && is_dispatch_for(
            dispatch,
            runs[at as int],
        ),
        PreparedStep::PublishQueued { at, dispatch } => at < runs.len() && is_dispatch_for(
            dispatch,
            runs[at as int],
        ),
        _ => true,
    }
}

/// Whether a dispatch is the one that a run was prepared for.
pub open spec fn is_dispatch_for(dispatch: RunDispatch, run: RunRecord) -> bool {
    &&& run.dispatch_id == Some(dispatch.dispatch_id)
    &&& dispatch.run_id == run.run_id
    &&& dispatch.thread_id == run.thread_id
}

/// A recovery queues for each run the dispatch that it was prepared for, only
/// where the store was seen not to have it, and takes up each thread once.
pub proof fn lemma_recovery_queues_what_is_missing(
    states: Seq<PreparedRecovery>,
    replies: Seq<PreparedReply>,
    at: int,
)
    requires
        is_prepared_recovery(states, replies),
        0 <= at < states.len(),
    ensures
        prepared_invariant(states[at]),
        states[at].step is Enqueue ==> at > 0 && (replies[at - 1] matches PreparedReply::Dispatch {
            result: Ok(None),
            ..
        }),
    decreases at,
{
    if at > 0 {
        lemma_recovery_queues_what_is_missing(states, replies, at - 1);
        let before = states[at - 1];
        let after = states[at];
        assert(prepared_answers(before, replies[at - 1]));
        assert(prepared_follows(before, replies[at - 1], after));
        let count: usize = after.runs.len();
        assert(count == after.runs@.len());
        match (before.step, replies[at - 1]) {
            (PreparedStep::ListRuns { .. }, PreparedReply::Runs(result)) => {
                if let Ok(page) = result {
                    lemma_with_prepared_keeps_all(before.runs@, page.items@);
                    lemma_next_named(after.runs@, 0);
                }
            },
            (PreparedStep::LoadDispatch { at: i, .. }, _) => {
                lemma_next_named(after.runs@, i + 1);
            },
            (PreparedStep::Enqueue { at: i, .. }, _) => {
                lemma_next_named(after.runs@, i + 1);
            },
            (PreparedStep::PublishQueued { at: i, .. }, _) => {
                lemma_next_named(after.runs@, i + 1);
            },
            _ => {},
        }
    }
}

/// Whether a reply shows that the store has the dispatch that a run was prepared
/// for: it was found there, or this recovery queued it, or another process did.
pub open spec fn settles(state: PreparedRecovery, reply: PreparedReply, run: RunRecord) -> bool {
    match (state.step, reply) {
        (PreparedStep::LoadDispatch { at, dispatch_id }, PreparedReply::Dispatch { result, .. }) => {
            &&& at < state.runs@.len() && state.runs@[at as int] == run
            &&& run.dispatch_id == Some(dispatch_id)
            &&& result matches Ok(Some(_))
        },
        (PreparedStep::Enqueue { at, dispatch }, PreparedReply::Queued) => {
            &&& at < state.runs@.len() && state.runs@[at as int] == run
            &&& is_dispatch_for(dispatch, run)
        },
        (PreparedStep::Enqueue { at, dispatch }, PreparedReply::NotQueued(error)) => {
            &&& at < state.runs@.len() && state.runs@[at as int] == run
            &&& is_dispatch_for(dispatch, run)
            &&& is_queued_elsewhere(error, dispatch)
        },
        _ => false,
    }
}

/// Whether the store was shown, before the state `at`, to have the dispatch that a
/// run was prepared for.
pub open spec fn is_settled(
    states: Seq<PreparedRecovery>,
    replies: Seq<PreparedReply>,
    at: int,
    run: RunRecord,
) -> bool {
    exists|i: int| 0 <= i < at && #[trigger] settles(states[i], replies[i], run)
}

/// Whether a reply lists a run that was prepared for a dispatch.
pub open spec fn lists_prepared(reply: PreparedReply, run: RunRecord) -> bool {
    reply matches PreparedReply::Runs(Ok(page)) && page.items@.contains(run) && is_prepared(run)
}

/// How many of the collected runs a recovery has behind it.
pub open spec fn runs_behind(recovery: PreparedRecovery) -> int {
    match recovery.step {
        PreparedStep::ListRuns { .. } => 0,
        PreparedStep::LoadDispatch { at, .. } => at as int,
        PreparedStep::Enqueue { at, .. } => at as int,
        PreparedStep::PublishQueued { at, .. } => at + 1,
        PreparedStep::DispatchThread { .. } => recovery.runs@.len() as int,
        PreparedStep::Done { outcome } => if outcome is Ok {
            recovery.runs@.len() as int
        } else {
            0
        },
    }
}

proof fn lemma_every_run_is_named(runs: Seq<RunRecord>, at: int)
    requires
        all_prepared(runs),
        0 <= at <= runs.len(),
    ensures
        next_named(runs, at) == at,
{
    if at < runs.len() {
        assert(is_prepared(runs[at]));
    }
}

/// What was settled or listed before one state was so before the next.
proof fn lemma_collected_and_settled(
    states: Seq<PreparedRecovery>,
    replies: Seq<PreparedReply>,
    at: int,
)
    requires
        is_prepared_recovery(states, replies),
        0 <= at < states.len(),
    ensures
        forall|k: int|
            0 <= k < runs_behind(states[at]) ==> is_settled(
                states,
                replies,
                at,
                #[trigger] states[at].runs@[k],
            ),
        forall|i: int, run: RunRecord|
            0 <= i < at && #[trigger] lists_prepared(replies[i], run)
                ==> states[at].runs@.contains(run),
    decreases at,
{
    lemma_recovery_queues_what_is_missing(states, replies, at);
    if at > 0 {
        lemma_collected_and_settled(states, replies, at - 1);
        lemma_recovery_queues_what_is_missing(states, replies, at - 1);
        let before = states[at - 1];
        let reply = replies[at - 1];
        let after = states[at];
        assert(prepared_answers(before, reply));
        assert(prepared_follows(before, reply, after));
        let count: usize = after.runs.len();
        assert(count == after.runs@.len());
        assert forall|i: int, run: RunRecord|
            0 <= i < at && #[trigger] lists_prepared(
                replies[i],
                run,
            ) implies after.runs@.contains(run) by {
            if i < at - 1 {
                assert(before.runs@.contains(run));
                let k = choose|k: int| 0 <= k < before.runs@.len() && before.runs@[k] == run;
                assert(after.runs@[k] == run);
            } else {
                let items = reply->Runs_0->Ok_0.items@;
                let k = choose|k: int| 0 <= k < items.len() && items[k] == run;
                assert(prepared_ones()(items[k]));
                items.lemma_filter_contains(prepared_ones(), k);
                let kept = items.filter(prepared_ones());
                let j = choose|j: int| 0 <= j < kept.len() && kept[j] == run;
                assert(after.runs@[before.runs@.len() + j] == run);
            }
        }
        lemma_every_run_is_named(after.runs@, 0);
        if before.step is LoadDispatch || before.step is Enqueue || before.step is PublishQueued {
            lemma_every_run_is_named(after.runs@, runs_at(before) + 1);
        }
        assert forall|k: int| 0 <= k < runs_behind(after) implies is_settled(
            states,
            replies,
            at,
            #[trigger] after.runs@[k],
        ) by {
            let run = after.runs@[k];
            if k < runs_behind(before) {
                assert(run == before.runs@[k]);
                assert(is_settled(states, replies, at - 1, before.runs@[k]));
                let i = choose|i: int|
                    0 <= i < at - 1 && #[trigger] settles(states[i], replies[i], run);
                assert(settles(states[i], replies[i], run));
            } else {
                assert(settles(states[at - 1], replies[at - 1], run));
            }
        }
    }
}

/// The run that a recovery is at.
spec fn runs_at(recovery: PreparedRecovery) -> int {
    match recovery.step {
        PreparedStep::LoadDispatch { at, .. } => at as int,
        PreparedStep::Enqueue { at, .. } => at as int,
        PreparedStep::PublishQueued { at, .. } => at as int,
        _ => -1,
    }
}

/// No prepared run is left behind: once a recovery has succeeded, the store has the
/// dispatch of every run that was listed as prepared, be it that the dispatch was
/// there, or was queued by this recovery or by another process.
pub proof fn lemma_recovery_covers_every_prepared_run(
    states: Seq<PreparedRecovery>,
    replies: Seq<PreparedReply>,
    at: int,
    i: int,
    run: RunRecord,
)
    requires
        is_prepared_recovery(states, replies),
        0 <= i < at < states.len(),
        states[at].step matches PreparedStep::Done { outcome: Ok(_) },
        lists_prepared(replies[i], run),
    ensures
        is_settled(states, replies, at, run),
{
    lemma_collected_and_settled(states, replies, at);
    let k = choose|k: int| 0 <= k < states[at].runs@.len() && states[at].runs@[k] == run;
    assert(is_settled(states, replies, at, states[at].runs@[k]));
}

/// The text of the message that wakes a run which waits for background tasks.
pub const BACKGROUND_WAKE_TEXT: &'static str = "<background-tasks-updated />";

/// Whether a request wakes a run that waits for background tasks: it continues the
/// run, with its agent, on its thread, by a message that the user does not see.
pub open spec fn is_wake(request: RunActivation, run: RunRecord) -> bool {
    &&& request.intent == (RunIntent {
        thread_id: run.thread_id,
        agent_id: Some(run.agent_id),
        kind: RunKind::HitlResume { run_id: run.run_id },
    })
    &&& request.messages@.len() == 1
    &&& text_message(Role::User, BACKGROUND_WAKE_TEXT@, request.messages@[0])
    &&& request.messages@[0].visibility == Visibility::Internal
    &&& request.options.overrides is None
    &&& request.options.frontend_tools@.len() == 0
    &&& request.trace == (RunTrace {
        run_mode: RunMode::InternalWake,
        adapter: AdapterKind::Internal,
        origin: RunOrigin::Internal,
        parent_run_id: None,
        parent_thread_id: None,
        transport_request_id: None,
        dispatch_id: None,
        session_id: None,
    })
    &&& request.control.seeded_decisions@.len() == 0
    &&& request.persistence.run_id_hint is None
    &&& request.persistence.dispatch_id_hint is None
    &&& request.persistence.resolution_id_hint is None
    &&& !request.persistence.messages_already_persisted
    &&& !request.has_run_resolver
}

/// The request that wakes a run which waits for background tasks.
pub fn background_wake(run: &RunRecord) -> (r: RunActivation)
    ensures
        is_wake(r, *run),
{
    let mut messages: Vec<Message> = Vec::new();
    messages.push(Message::internal_user(BACKGROUND_WAKE_TEXT.to_owned()));
    let mut request = RunActivation::new(run.thread_id.clone(), messages).with_agent_id(
        run.agent_id.clone(),
    ).with_continue_run_id(run.run_id.clone());
    request.trace.origin = RunOrigin::Internal;
    request.trace.run_mode = RunMode::InternalWake;
    request.trace.adapter = AdapterKind::Internal;
    request
}

/// The operation that is due in the recovery of background waits.
#[derive(Debug, PartialEq)]
pub enum WaitStep {
    /// List the waiting runs, from an offset.
    ListWaiting { offset: usize },
    /// Submit the request that wakes the run `at`, in the background.
    Submit { at: usize, request: RunActivation },
    /// The recovery is over: how many runs were woken.
    Done { outcome: Result<usize, Fault> },
}

/// The reply to the operation of a step.
#[derive(Debug, PartialEq)]
pub enum WaitReply {
    Runs(Result<RunPage, StorageError>),
    Submitted,
    NotSubmitted(Fault),
}

/// The recovery of runs that wait for background tasks on threads where nothing is
/// queued.
#[derive(Debug, PartialEq)]
pub struct WaitRecovery {
    pub queued: Vec<String>,
    pub runs: Vec<RunRecord>,
    pub total: usize,
    pub step: WaitStep,
}

/// Whether a reply is one that the operation of the due step gives.
pub open spec fn wait_answers(recovery: WaitRecovery, reply: WaitReply) -> bool {
    match recovery.step {
        WaitStep::ListWaiting { offset } => reply matches WaitReply::Runs(result) && (
        result matches Ok(page) ==> offset + page.items@.len() <= usize::MAX),
        WaitStep::Submit { at, .. } => (reply is Submitted || reply is NotSubmitted) && at
            < recovery.runs@.len() && recovery.total < usize::MAX,
        WaitStep::Done { .. } => false,
    }
}

/// The first run from `at` on whose thread has nothing queued, or the end.
pub open spec fn next_uncovered(runs: Seq<RunRecord>, queued: Seq<String>, at: int) -> int
    decreases runs.len() - at,
{
    if at < 0 || at >= runs.len() {
        runs.len() as int
    } else if !names(queued, runs[at].thread_id@) {
        at
    } else {
        next_uncovered(runs, queued, at + 1)
    }
}

/// Whether `after` is the step at the next run from `at` on that is to be woken.
pub open spec fn is_at_wait(
    runs: Seq<RunRecord>,
    queued: Seq<String>,
    total: usize,
    at: int,
    after: WaitStep,
) -> bool {
    let next = next_uncovered(runs, queued, at);
    if next < runs.len() {
        after matches WaitStep::Submit { at: i, request } && i == next && is_wake(
            request,
            runs[next],
        )
    } else {
        after == (WaitStep::Done { outcome: Ok(total) })
    }
}

/// Whether `after` is what a reply leads to.
pub open spec fn wait_follows(before: WaitRecovery, reply: WaitReply, after: WaitRecovery) -> bool {
    &&& after.queued == before.queued
    &&& match (before.step, reply) {
        (WaitStep::ListWaiting { offset }, WaitReply::Runs(result)) => after.total == before.total
            && match result {
            Err(error) => after.runs == before.runs && after.step == (WaitStep::Done {
                outcome: Err(Fault::Store(error)),
            }),
            Ok(page) => {
                &&& after.runs@ == with_background_waits(before.runs@, page.items@)
                &&& if goes_on_after(page) {
                    after.step == (WaitStep::ListWaiting {
                        offset: (offset + page.items@.len()) as usize,
                    })
                } else {
                    is_at_wait(after.runs@, before.queued@, before.total, 0, after.step)
                }
            },
        },
        (WaitStep::Submit { at, .. }, WaitReply::Submitted) => after.runs == before.runs
            && after.total == before.total + 1 && is_at_wait(
            before.runs@,
            before.queued@,
            after.total,
            at + 1,
            after.step,
        ),
        (WaitStep::Submit { .. }, WaitReply::NotSubmitted(fault)) => after.runs == before.runs
            && after.total == before.total && after.step == (WaitStep::Done {
            outcome: Err(fault),
        }),
        _ => false,
    }
}

fn wait_step(runs: &Vec<RunRecord>, queued: &Vec<String>, total: usize, from: usize) -> (r: WaitStep)
    requires
        from <= runs@.len(),
    ensures
        is_at_wait(runs@, queued@, total, from as int, r),
{
    let mut at: usize = from;
    while at < runs.len()
        invariant
            from <= at <= runs@.len(),
            next_uncovered(runs@, queued@, from as int) == next_uncovered(
                runs@,
                queued@,
                at as int,
            ),
        decreases runs@.len() - at,
    {
        if !lists(queued, &runs[at].thread_id) {
            return WaitStep::Submit { at, request: background_wake(&runs[at]) };
        }
        at = at + 1;
    }
    WaitStep::Done { outcome: Ok(total) }
}

impl WaitRecovery {
    /// Begin the recovery. The threads of `queued` are taken up anyway.
    pub fn recover_orphaned_background_task_waits(queued: Vec<String>) -> (r: WaitRecovery)
        ensures
            r.queued == queued,
            r.runs@.len() == 0,
            r.total == 0,
            r.step == (WaitStep::ListWaiting { offset: 0 }),
    {
        WaitRecovery {
            queued,
            runs: Vec::new(),
            total: 0,
            step: WaitStep::ListWaiting { offset: 0 },
        }
    }

    /// Whether a reply is one that the operation of the due step gives.
    pub fn expects(&self, reply: &WaitReply) -> (r: bool)
        ensures
            r == wait_answers(*self, *reply),
    {
        match (&self.step, reply) {
            (WaitStep::ListWaiting { offset }, WaitReply::Runs(result)) => match result {
                Ok(page) => *offset <= usize::MAX - page.items.len(),
                Err(_) => true,
            },
            (WaitStep::Submit { at, .. }, WaitReply::Submitted) => *at < self.runs.len()
                && self.total < usize::MAX,
            (WaitStep::Submit { at, .. }, WaitReply::NotSubmitted(_)) => *at < self.runs.len()
                && self.total < usize::MAX,
            _ => false,
        }
    }

    /// Take the reply to the operation that was due.
    pub fn advance(self, reply: WaitReply) -> (r: WaitRecovery)
        requires
            wait_answers(self, reply),
        ensures
            wait_follows(self, reply, r),
    {
        let queued = self.queued;
        let runs = self.runs;
        let total: usize = self.total;
        let count: usize = runs.len();
        match (self.step, reply) {
            (WaitStep::ListWaiting { offset }, WaitReply::Runs(result)) => match result {
                Err(error) => WaitRecovery {
                    queued,
                    runs,
                    total,
                    step: WaitStep::Done { outcome: Err(Fault::Store(error)) },
                },
                Ok(page) => {
                    let length: usize = page.items.len();
                    let more = page.has_more && length > 0;
                    let kept = keep(Wanted::BackgroundWaits, runs, page.items);
                    let step = if more {
                        WaitStep::ListWaiting { offset: offset + length }
                    } else {
                        wait_step(&kept, &queued, total, 0)
                    };
                    WaitRecovery { queued, runs: kept, total, step }
                },
            },
            (WaitStep::Submit { at, .. }, WaitReply::Submitted) => {
                assert(at < count);
                let counted: usize = total + 1;
                let step = wait_step(&runs, &queued, counted, at + 1);
                WaitRecovery { queued, runs, total: counted, step }
            },
            (WaitStep::Submit { .. }, WaitReply::NotSubmitted(fault)) => WaitRecovery {
                queued,
                runs,
                total,
                step: WaitStep::Done { outcome: Err(fault) },
            },
            (step, _) => WaitRecovery { queued, runs, total, step },
        }
    }
}

proof fn lemma_next_uncovered(runs: Seq<RunRecord>, queued: Seq<String>, at: int)
    requires
        0 <= at,
    ensures
        next_uncovered(runs, queued, at) < runs.len() ==> next_uncovered(runs, queued, at) >= at
            && !names(queued, runs[next_uncovered(runs, queued, at)].thread_id@),
    decreases runs.len() - at,
{
    if at < runs.len() && names(queued, runs[at].thread_id@) {
        lemma_next_uncovered(runs, queued, at + 1);
    }
}

/// A recovery of background waits: how it stood before each reply, and the replies.
pub open spec fn is_wait_recovery(states: Seq<WaitRecovery>, replies: Seq<WaitReply>) -> bool {
    &&& states.len() == replies.len() + 1
    &&& states[0].runs@.len() == 0
    &&& states[0].step is ListWaiting
    &&& forall|i: int|
        #![trigger replies[i]]
        0 <= i < replies.len() ==> wait_answers(states[i], replies[i]) && wait_follows(
            states[i],
            replies[i],
            states[i + 1],
        )
}

/// Whether every collected run waits for background tasks.
pub open spec fn all_wait(runs: Seq<RunRecord>) -> bool {
    forall|i: int| 0 <= i < runs.len() ==> (#[trigger] runs[i]).waits_for_background()
}

proof fn lemma_with_waits_keeps_all(runs: Seq<RunRecord>, page: Seq<RunRecord>)
    requires
        all_wait(runs),
    ensures
        all_wait(with_background_waits(runs, page)),
{
    let kept = page.filter(background_waits());
    assert forall|i: int| 0 <= i < with_background_waits(runs, page).len() implies (
    #[trigger] with_background_waits(runs, page)[i]).waits_for_background() by {
        if i >= runs.len() {
            page.lemma_filter_pred(background_waits(), i - runs.len());
            assert(background_waits()(kept[i - runs.len()]));
        }
    }
}

/// A run is woken only where it waits for background tasks and nothing is queued on
/// its thread, by a request that continues that run.
pub proof fn lemma_only_orphaned_waits_are_woken(
    states: Seq<WaitRecovery>,
    replies: Seq<WaitReply>,
    at: int,
)
    requires
        is_wait_recovery(states, replies),
        0 <= at < states.len(),
    ensures
        all_wait(states[at].runs@),
        states[at].step matches WaitStep::Submit { at: i, request } ==> i < states[at].runs@.len()
            && !names(states[at].queued@, states[at].runs@[i as int].thread_id@) && is_wake(
            request,
            states[at].runs@[i as int],
        ),
    decreases at,
{
    if at > 0 {
        lemma_only_orphaned_waits_are_woken(states, replies, at - 1);
        let before = states[at - 1];
        let after = states[at];
        assert(wait_answers(before, replies[at - 1]));
        assert(wait_follows(before, replies[at - 1], after));
        match (before.step, replies[at - 1]) {
            (WaitStep::ListWaiting { .. }, WaitReply::Runs(result)) => {
                if let Ok(page) = result {
                    lemma_with_waits_keeps_all(before.runs@, page.items@);
                    lemma_next_uncovered(after.runs@, before.queued@, 0);
                }
            },
            (WaitStep::Submit { at: i, .. }, _) => {
                lemma_next_uncovered(after.runs@, before.queued@, i + 1);
            },
            _ => {},
        }
    }
}

/// The operation that is due in the scan for orphaned pending messages.
#[derive(Debug, PartialEq)]
pub enum OrphanStep {
    /// List the threads that have queued dispatches by now.
    ListQueued,
    /// List a page of threads with pending messages, after a thread.
    ListPending { after: Option<String> },
    /// Load the latest run of the thread `at` of the page.
    LatestRun { page: Vec<String>, at: usize },
    /// Report the thread `at` of the page.
    Surface { page: Vec<String>, at: usize },
    /// The scan is over: how many threads were reported.
    Done { outcome: Result<usize, Fault> },
}

/// The reply to the operation of a step.
#[derive(Debug, PartialEq)]
pub enum OrphanReply {
    Threads(Result<Vec<String>, StorageError>),
    Run(Result<Option<RunRecord>, StorageError>),
    Performed,
}

/// The scan for threads that hold pending messages with nothing to consume them:
/// no queued dispatch, and no running run.
#[derive(Debug, PartialEq)]
pub struct OrphanScan {
    pub queued: Vec<String>,
    pub orphaned: usize,
    pub step: OrphanStep,
}

/// Whether a reply is one that the operation of the due step gives.
pub open spec fn orphan_answers(scan: OrphanScan, reply: OrphanReply) -> bool {
    match scan.step {
        OrphanStep::ListQueued => reply is Threads,
        OrphanStep::ListPending { .. } => reply is Threads,
        OrphanStep::LatestRun { page, at } => reply is Run && at < page@.len(),
        OrphanStep::Surface { page, at } => reply is Performed && at < page@.len() && scan.orphaned
            < usize::MAX,
        OrphanStep::Done { .. } => false,
    }
}

/// The first thread from `at` on that has nothing queued, or the end.
pub open spec fn next_unqueued(page: Seq<String>, queued: Seq<String>, at: int) -> int
    decreases page.len() - at,
{
    if at < 0 || at >= page.len() {
        page.len() as int
    } else if !names(queued, page[at]@) {
        at
    } else {
        next_unqueued(page, queued, at + 1)
    }
}

/// The step at the next thread from `at` on that has nothing queued. A full page is
/// followed by another.
pub open spec fn at_pending_thread(
    page: Vec<String>,
    queued: Seq<String>,
    orphaned: usize,
    at: int,
) -> OrphanStep {
    let next = next_unqueued(page@, queued, at);
    if next < page@.len() {
        OrphanStep::LatestRun { page, at: next as usize }
    } else if page@.len() < PENDING_RECOVERY_PAGE_SIZE {
        OrphanStep::Done { outcome: Ok(orphaned) }
    } else {
        OrphanStep::ListPending { after: Some(page@.last()) }
    }
}

/// Whether `after` is what a reply leads to.
pub open spec fn orphan_follows(before: OrphanScan, reply: OrphanReply, after: OrphanScan) -> bool {
    let same_queued = after.queued == before.queued;
    let same_count = after.orphaned == before.orphaned;
    match (before.step, reply) {
        (OrphanStep::ListQueued, OrphanReply::Threads(result)) => same_count && match result {
            Err(error) => same_queued && after.step == (OrphanStep::Done {
                outcome: Err(Fault::Store(error)),
            }),
            Ok(threads) => after.queued@ == before.queued@ + threads@ && after.step == (
            OrphanStep::ListPending { after: None }),
        },
        (OrphanStep::ListPending { .. }, OrphanReply::Threads(result)) => same_queued && same_count
            && after.step == (match result {
            Err(error) => OrphanStep::Done { outcome: Err(Fault::Store(error)) },
            Ok(page) => if page@.len() == 0 {
                OrphanStep::Done { outcome: Ok(before.orphaned) }
            } else {
                at_pending_thread(page, before.queued@, before.orphaned, 0)
            },
        }),
        (OrphanStep::LatestRun { page, at }, OrphanReply::Run(result)) => same_queued && same_count
            && after.step == (match result {
            Err(error) => OrphanStep::Done { outcome: Err(Fault::Store(error)) },
            Ok(Some(run)) => if run.status == RunStatus::Running {
                at_pending_thread(page, before.queued@, before.orphaned, at + 1)
            } else {
                OrphanStep::Surface { page, at }
            },
            Ok(None) => OrphanStep::Surface { page, at },
        }),
        (OrphanStep::Surface { page, at }, _) => same_queued && after.orphaned == before.orphaned
            + 1 && after.step == at_pending_thread(page, before.queued@, after.orphaned, at + 1),
        _ => false,
    }
}

fn pending_step(page: Vec<String>, queued: &Vec<String>, orphaned: usize, from: usize) -> (r:
    OrphanStep)
    requires
        from <= page@.len(),
        page@.len() > 0,
    ensures
        r == at_pending_thread(page, queued@, orphaned, from as int),
{
    let mut at: usize = from;
    while at < page.len()
        invariant
            page@.len() > 0,
            from <= at <= page@.len(),
            next_unqueued(page@, queued@, from as int) == next_unqueued(page@, queued@, at as int),
        decreases page@.len() - at,
    {
        if !lists(queued, &page[at]) {
            return OrphanStep::LatestRun { page, at };
        }
        at = at + 1;
    }
    if page.len() < PENDING_RECOVERY_PAGE_SIZE {
        OrphanStep::Done { outcome: Ok(orphaned) }
    } else {
        OrphanStep::ListPending { after: Some(page[page.len() - 1].clone()) }
    }
}

impl OrphanScan {
    /// Begin the scan. Without a pending store there is nothing to find. `queued`
    /// holds the threads that had queued dispatches when the recovery began.
    pub fn recover_orphaned_pending_threads(has_pending_store: bool, queued: Vec<String>) -> (r:
        OrphanScan)
        ensures
            r.queued == queued,
            r.orphaned == 0,
            r.step == (if has_pending_store {
                OrphanStep::ListQueued
            } else {
                OrphanStep::Done { outcome: Ok(0) }
            }),
    {
        let step = if has_pending_store {
            OrphanStep::ListQueued
        } else {
            OrphanStep::Done { outcome: Ok(0) }
        };
        OrphanScan { queued, orphaned: 0, step }
    }

    /// Whether a reply is one that the operation of the due step gives.
    pub fn expects(&self, reply: &OrphanReply) -> (r: bool)
        ensures
            r == orphan_answers(*self, *reply),
    {
        match (&self.step, reply) {
            (OrphanStep::ListQueued, OrphanReply::Threads(_)) => true,
            (OrphanStep::ListPending { .. }, OrphanReply::Threads(_)) => true,
            (OrphanStep::LatestRun { page, at }, OrphanReply::Run(_)) => *at < page.len(),
            (OrphanStep::Surface { page, at }, OrphanReply::Performed) => *at < page.len()
                && self.orphaned < usize::MAX,
            _ => false,
        }
    }

    /// Take the reply to the operation that was due.
    pub fn advance(self, reply: OrphanReply) -> (r: OrphanScan)
        requires
            orphan_answers(self, reply),
        ensures
            orphan_follows(self, reply, r),
    {
        let queued = self.queued;
        let orphaned: usize = self.orphaned;
        match (self.step, reply) {
            (OrphanStep::ListQueued, OrphanReply::Threads(result)) => match result {
                Err(error) => OrphanScan {
                    queued,
                    orphaned,
                    step: OrphanStep::Done { outcome: Err(Fault::Store(error)) },
                },
                Ok(threads) => {
                    let mut all = queued;
                    let mut more = threads;
                    all.append(&mut more);
                    OrphanScan {
                        queued: all,
                        orphaned,
                        step: OrphanStep::ListPending { after: None },
                    }
                },
            },
            (OrphanStep::ListPending { .. }, OrphanReply::Threads(result)) => {
                let step = match result {
                    Err(error) => OrphanStep::Done { outcome: Err(Fault::Store(error)) },
                    Ok(page) => if page.len() == 0 {
                        OrphanStep::Done { outcome: Ok(orphaned) }
                    } else {
                        pending_step(page, &queued, orphaned, 0)
                    },
                };
                OrphanScan { queued, orphaned, step }
            },
            (OrphanStep::LatestRun { page, at }, OrphanReply::Run(result)) => {
                let count: usize = page.len();
                assert(at < count);
                let step = match result {
                    Err(error) => OrphanStep::Done { outcome: Err(Fault::Store(error)) },
                    Ok(Some(run)) => if run.status == RunStatus::Running {
                        pending_step(page, &queued, orphaned, at + 1)
                    } else {
                        OrphanStep::Surface { page, at }
                    },
                    Ok(None) => OrphanStep::Surface { page, at },
                };
                OrphanScan { queued, orphaned, step }
            },
            (OrphanStep::Surface { page, at }, _) => {
                let count: usize = page.len();
                assert(at < count);
                let counted: usize = orphaned + 1;
                let step = pending_step(page, &queued, counted, at + 1);
                OrphanScan { queued, orphaned: counted, step }
            },
            (step, _) => OrphanScan { queued, orphaned, step },
        }
    }
}

/// A scan: how it stood before each reply, and the replies.
pub open spec fn is_orphan_scan(scans: Seq<OrphanScan>, replies: Seq<OrphanReply>) -> bool {
    &&& scans.len() == replies.len() + 1
    &&& scans[0].step is ListQueued
    &&& forall|i: int|
        #![trigger replies[i]]
        0 <= i < replies.len() ==> orphan_answers(scans[i], replies[i]) && orphan_follows(
            scans[i],
            replies[i],
            scans[i + 1],
        )
}

proof fn lemma_next_unqueued(page: Seq<String>, queued: Seq<String>, at: int)
    requires
        0 <= at,
    ensures
        next_unqueued(page, queued, at) < page.len() ==> next_unqueued(page, queued, at) >= at
            && !names(queued, page[next_unqueued(page, queued, at)]@),
    decreases page.len() - at,
{
    if at < page.len() && names(queued, page[at]@) {
        lemma_next_unqueued(page, queued, at + 1);
    }
}

/// A thread is reported only where nothing was queued for it, neither when the
/// recovery began nor when the scan did, and its latest run is not running.
pub proof fn lemma_only_orphans_are_reported(
    scans: Seq<OrphanScan>,
    replies: Seq<OrphanReply>,
    at: int,
)
    requires
        is_orphan_scan(scans, replies),
        0 <= at < scans.len(),
    ensures
        scans[at].step matches OrphanStep::LatestRun { page, at: i } ==> i < page@.len() && !names(
            scans[at].queued@,
            page@[i as int]@,
        ),
        scans[at].step matches OrphanStep::Surface { page, at: i } ==> at > 0 && i < page@.len()
            && !names(scans[at].queued@, page@[i as int]@) && (
        replies[at - 1] matches OrphanReply::Run(Ok(latest)) && !(latest matches Some(run)
            && run.status == RunStatus::Running)),
    decreases at,
{
    if at > 0 {
        lemma_only_orphans_are_reported(scans, replies, at - 1);
        let before = scans[at - 1];
        assert(orphan_answers(before, replies[at - 1]));
        assert(orphan_follows(before, replies[at - 1], scans[at]));
        match (before.step, replies[at - 1]) {
            (OrphanStep::ListPending { .. }, OrphanReply::Threads(result)) => {
                if let Ok(page) = result {
                    let count: usize = page.len();
                    assert(count == page@.len());
                    lemma_next_unqueued(page@, before.queued@, 0);
                }
            },
            (OrphanStep::LatestRun { page, at: i }, _) => {
                let count: usize = page.len();
                assert(count == page@.len());
                lemma_next_unqueued(page@, before.queued@, i + 1);
            },
            (OrphanStep::Surface { page, at: i }, _) => {
                let count: usize = page.len();
                assert(count == page@.len());
                lemma_next_unqueued(page@, before.queued@, i + 1);
            },
            _ => {},
        }
    }
}

/// The operation that is due in a recovery at startup.
#[derive(Debug, PartialEq)]
pub enum RecoverStep {
    /// Reclaim the leases that have expired.
    Reclaim,
    /// Publish that the reclaimed dispatch `at` is rescheduled.
    PublishRescheduled { reclaimed: Vec<RunDispatch>, at: usize },
    /// Reconcile the run of the reclaimed dispatch `at`.
    Reconcile { reclaimed: Vec<RunDispatch>, at: usize },
    /// Reconcile the runs of the dispatches that have ended.
    ReconcileEnded { total: usize },
    /// Repair the checkpoint events.
    RepairEvents { total: usize },
    /// List the threads that have queued dispatches.
    ListQueued { total: usize },
    /// Let the worker of the queued thread `at` take up its next dispatch.
    DispatchThread { total: usize, queued: Vec<String>, at: usize },
    /// Recover the prepared runs whose dispatch is missing.
    RecoverPrepared { total: usize, queued: Vec<String> },
    /// Recover the runs that wait for background tasks.
    RecoverWaits { total: usize, queued: Vec<String> },
    /// Scan for orphaned pending messages.
    ScanOrphans { total: usize, queued: Vec<String> },
    /// The recovery is over: how many entries were recovered.
    Done { outcome: Result<usize, Fault> },
}

/// The reply to the operation of a step.
#[derive(Debug, PartialEq)]
pub enum RecoverReply {
    Reclaimed(Result<Vec<RunDispatch>, StorageError>),
    Threads(Result<Vec<String>, StorageError>),
    Counted(Result<usize, Fault>),
    Performed,
}

/// Whether a reply is one that the operation of a step gives. The total can be
/// counted.
pub open spec fn recover_answers(step: RecoverStep, reply: RecoverReply) -> bool {
    match step {
        RecoverStep::Reclaim => reply is Reclaimed,
        RecoverStep::PublishRescheduled { reclaimed, at } => reply is Performed && at
            < reclaimed@.len(),
        RecoverStep::Reconcile { reclaimed, at } => reply is Performed && at < reclaimed@.len(),
        RecoverStep::ReconcileEnded { .. } => reply is Performed,
        RecoverStep::RepairEvents { .. } => reply is Counted,
        RecoverStep::ListQueued { .. } => reply is Threads,
        RecoverStep::DispatchThread { queued, at, .. } => reply is Performed && at < queued@.len(),
        RecoverStep::RecoverPrepared { total, .. } => reply matches RecoverReply::Counted(result)
            && (result matches Ok(count) ==> total + count <= usize::MAX),
        RecoverStep::RecoverWaits { total, .. } => reply matches RecoverReply::Counted(result) && (
        result matches Ok(count) ==> total + count <= usize::MAX),
        RecoverStep::ScanOrphans { total, .. } => reply matches RecoverReply::Counted(result) && (
        result matches Ok(count) ==> total + count <= usize::MAX),
        RecoverStep::Done { .. } => false,
    }
}

/// The step at a queued thread, or behind the last.
pub open spec fn at_queued(total: usize, queued: Vec<String>, at: int) -> RecoverStep {
    if at < queued@.len() {
        RecoverStep::DispatchThread { total, queued, at: at as usize }
    } else {
        RecoverStep::RecoverPrepared { total, queued }
    }
}

/// The step at a reclaimed dispatch, or behind the last.
pub open spec fn at_reclaimed(reclaimed: Vec<RunDispatch>, at: int) -> RecoverStep {
    if at < reclaimed@.len() {
        RecoverStep::PublishRescheduled { reclaimed, at: at as usize }
    } else {
        RecoverStep::ReconcileEnded { total: reclaimed@.len() as usize }
    }
}

/// The step that a reply leads to. What is reclaimed, and each of the three later
/// recoveries, adds to the total; the repair of events does not.
pub open spec fn next_recover_step(step: RecoverStep, reply: RecoverReply) -> RecoverStep {
    match (step, reply) {
        (RecoverStep::Reclaim, RecoverReply::Reclaimed(result)) => match result {
            Err(error) => RecoverStep::Done { outcome: Err(Fault::Store(error)) },
            Ok(reclaimed) => at_reclaimed(reclaimed, 0),
        },
        (RecoverStep::PublishRescheduled { reclaimed, at }, _) => RecoverStep::Reconcile {
            reclaimed,
            at,
        },
        (RecoverStep::Reconcile { reclaimed, at }, _) => at_reclaimed(reclaimed, at + 1),
        (RecoverStep::ReconcileEnded { total }, _) => RecoverStep::RepairEvents { total },
        (RecoverStep::RepairEvents { total }, RecoverReply::Counted(result)) => match result {
            Err(fault) => RecoverStep::Done { outcome: Err(fault) },
            Ok(_) => RecoverStep::ListQueued { total },
        },
        (RecoverStep::ListQueued { total }, RecoverReply::Threads(result)) => match result {
            Err(error) => RecoverStep::Done { outcome: Err(Fault::Store(error)) },
            Ok(queued) => at_queued(total, queued, 0),
        },
        (RecoverStep::DispatchThread { total, queued, at }, _) => at_queued(total, queued, at + 1),
        (RecoverStep::RecoverPrepared { total, queued }, RecoverReply::Counted(result)) =>
        match result {
            Err(fault) => RecoverStep::Done { outcome: Err(fault) },
            Ok(count) => RecoverStep::RecoverWaits { total: (total + count) as usize, queued },
        },
        (RecoverStep::RecoverWaits { total, queued }, RecoverReply::Counted(result)) => match result {
            Err(fault) => RecoverStep::Done { outcome: Err(fault) },
            Ok(count) => RecoverStep::ScanOrphans { total: (total + count) as usize, queued },
        },
        (RecoverStep::ScanOrphans { total, .. }, RecoverReply::Counted(result)) => match result {
            Err(fault) => RecoverStep::Done { outcome: Err(fault) },
            Ok(count) => RecoverStep::Done { outcome: Ok((total + count) as usize) },
        },
        _ => step,
    }
}

/// Whether an event is the one that a step of a recovery publishes, where it publishes
/// one.
pub open spec fn is_recover_event(step: RecoverStep, event: Option<EventDraft>) -> bool {
    match step {
        RecoverStep::PublishRescheduled { reclaimed, at } => if at < reclaimed@.len() {
            is_rescheduled_event(event, reclaimed@[at as int], EXPIRED_LEASE_RECLAIMED)
        } else {
            event is None
        },
        _ => event is None,
    }
}

/// The event that a step of a recovery publishes, where it publishes one.
pub fn recover_event(step: &RecoverStep) -> (r: Option<EventDraft>)
    ensures
        is_recover_event(*step, r),
{
    match step {
        RecoverStep::PublishRescheduled { reclaimed, at } => if *at < reclaimed.len() {
            record_run_rescheduled_dispatch(&reclaimed[*at], EXPIRED_LEASE_RECLAIMED)
        } else {
            None
        },
        _ => None,
    }
}

/// Whether a reply is one that the operation of a step gives.
pub fn recover_expects(step: &RecoverStep, reply: &RecoverReply) -> (r: bool)
    ensures
        r == recover_answers(*step, *reply),
{
    match (step, reply) {
        (RecoverStep::Reclaim, RecoverReply::Reclaimed(_)) => true,
        (RecoverStep::PublishRescheduled { reclaimed, at }, RecoverReply::Performed) => *at
            < reclaimed.len(),
        (RecoverStep::Reconcile { reclaimed, at }, RecoverReply::Performed) => *at
            < reclaimed.len(),
        (RecoverStep::ReconcileEnded { .. }, RecoverReply::Performed) => true,
        (RecoverStep::RepairEvents { .. }, RecoverReply::Counted(_)) => true,
        (RecoverStep::ListQueued { .. }, RecoverReply::Threads(_)) => true,
        (RecoverStep::DispatchThread { queued, at, .. }, RecoverReply::Performed) => *at
            < queued.len(),
        (RecoverStep::RecoverPrepared { total, .. }, RecoverReply::Counted(result)) => countable(
            *total,
            result,
        ),
        (RecoverStep::RecoverWaits { total, .. }, RecoverReply::Counted(result)) => countable(
            *total,
            result,
        ),
        (RecoverStep::ScanOrphans { total, .. }, RecoverReply::Counted(result)) => countable(
            *total,
            result,
        ),
        _ => false,
    }
}

fn countable(total: usize, result: &Result<usize, Fault>) -> (r: bool)
    ensures
        r == (*result matches Ok(count) ==> total + count <= usize::MAX),
{
    match result {
        Ok(count) => total <= usize::MAX - *count,
        Err(_) => true,
    }
}

fn queued_step(total: usize, queued: Vec<String>, at: usize) -> (r: RecoverStep)
    ensures
        r == at_queued(total, queued, at as int),
{
    if at < queued.len() {
        RecoverStep::DispatchThread { total, queued, at }
    } else {
        RecoverStep::RecoverPrepared { total, queued }
    }
}

fn reclaimed_step(reclaimed: Vec<RunDispatch>, at: usize) -> (r: RecoverStep)
    ensures
        r == at_reclaimed(reclaimed, at as int),
{
    let count: usize = reclaimed.len();
    if at < count {
        RecoverStep::PublishRescheduled { reclaimed, at }
    } else {
        RecoverStep::ReconcileEnded { total: count }
    }
}

/// The step that a reply leads to in a recovery at startup, which begins with the
/// expired leases.
pub fn recover(step: RecoverStep, reply: RecoverReply) -> (r: RecoverStep)
    requires
        recover_answers(step, reply),
    ensures
        r == next_recover_step(step, reply),
{
    match (step, reply) {
        (RecoverStep::Reclaim, RecoverReply::Reclaimed(result)) => match result {
            Err(error) => RecoverStep::Done { outcome: Err(Fault::Store(error)) },
            Ok(reclaimed) => reclaimed_step(reclaimed, 0),
        },
        (RecoverStep::PublishRescheduled { reclaimed, at }, _) => RecoverStep::Reconcile {
            reclaimed,
            at,
        },
        (RecoverStep::Reconcile { reclaimed, at }, _) => {
            let count: usize = reclaimed.len();
            assert(at < count);
            reclaimed_step(reclaimed, at + 1)
        },
        (RecoverStep::ReconcileEnded { total }, _) => RecoverStep::RepairEvents { total },
        (RecoverStep::RepairEvents { total }, RecoverReply::Counted(result)) => match result {
            Err(fault) => RecoverStep::Done { outcome: Err(fault) },
            Ok(_) => RecoverStep::ListQueued { total },
        },
        (RecoverStep::ListQueued { total }, RecoverReply::Threads(result)) => match result {
            Err(error) => RecoverStep::Done { outcome: Err(Fault::Store(error)) },
            Ok(queued) => queued_step(total, queued, 0),
        },
        (RecoverStep::DispatchThread { total, queued, at }, _) => {
            let count: usize = queued.len();
            assert(at < count);
            queued_step(total, queued, at + 1)
        },
        (RecoverStep::RecoverPrepared { total, queued }, RecoverReply::Counted(result)) => {
            match result {
                Err(fault) => RecoverStep::Done { outcome: Err(fault) },
                Ok(count) => RecoverStep::RecoverWaits { total: total + count, queued },
            }
        },
        (RecoverStep::RecoverWaits { total, queued }, RecoverReply::Counted(result)) => {
            match result {
                Err(fault) => RecoverStep::Done { outcome: Err(fault) },
                Ok(count) => RecoverStep::ScanOrphans { total: total + count, queued },
            }
        },
        (RecoverStep::ScanOrphans { total, .. }, RecoverReply::Counted(result)) => match result {
            Err(fault) => RecoverStep::Done { outcome: Err(fault) },
            Ok(count) => RecoverStep::Done { outcome: Ok(total + count) },
        },
        (step, _) => step,
    }
}

/// A recovery at startup: the steps that were due and the replies to them.
pub open spec fn is_recovery(steps: Seq<RecoverStep>, replies: Seq<RecoverReply>) -> bool {
    &&& steps.len() == replies.len() + 1
    &&& steps[0] is Reclaim
    &&& forall|i: int|
        #![trigger replies[i]]
        0 <= i < replies.len() ==> recover_answers(steps[i], replies[i]) && steps[i + 1]
            == next_recover_step(steps[i], replies[i])
}

/// The step of a recovery that has reclaimed dispatches, at a place of its course: each
/// reclaimed dispatch is told and reconciled, then the dispatches that have ended, then
/// the events are repaired and the queued threads listed.
pub open spec fn is_on_course(
    reclaimed: Vec<RunDispatch>,
    replies: Seq<RecoverReply>,
    at: int,
    step: RecoverStep,
) -> bool {
    let count = reclaimed@.len() as int;
    if at <= 2 * count {
        if at % 2 == 1 {
            step matches RecoverStep::PublishRescheduled { reclaimed: of, at: k } && of == reclaimed
                && 2 * k + 1 == at
        } else {
            step matches RecoverStep::Reconcile { reclaimed: of, at: k } && of == reclaimed && 2 * k
                + 2 == at
        }
    } else if at == 2 * count + 1 {
        step matches RecoverStep::ReconcileEnded { total } && total == count
    } else if at == 2 * count + 2 {
        step matches RecoverStep::RepairEvents { total } && total == count
    } else {
        replies[2 * count + 2] matches RecoverReply::Counted(repaired) && match repaired {
            Err(fault) => at == 2 * count + 3 && step == (RecoverStep::Done { outcome: Err(fault) }),
            Ok(_) => if at == 2 * count + 3 {
                step matches RecoverStep::ListQueued { total } && total == count
            } else {
                replies[2 * count + 3] matches RecoverReply::Threads(listed) && match listed {
                    Err(error) => at == 2 * count + 4 && step == (RecoverStep::Done {
                        outcome: Err(Fault::Store(error)),
                    }),
                    Ok(queued) => is_on_later_course(
                        count,
                        queued,
                        replies,
                        at - 2 * count - 4,
                        2 * count + 4,
                        step,
                    ),
                }
            },
        }
    }
}

/// The step of a recovery after the queued threads were listed: each is taken up, and
/// then the three recoveries follow, whose counts add to what was reclaimed.
pub open spec fn is_on_later_course(
    count: int,
    queued: Vec<String>,
    replies: Seq<RecoverReply>,
    at: int,
    from: int,
    step: RecoverStep,
) -> bool {
    let threads = queued@.len() as int;
    let last = from + threads;
    if at < threads {
        step matches RecoverStep::DispatchThread { total, queued: of, at: k } && total == count && of
            == queued && k == at
    } else if at == threads {
        step matches RecoverStep::RecoverPrepared { total, queued: of } && total == count && of
            == queued
    } else {
        replies[last] matches RecoverReply::Counted(prepared) && match prepared {
            Err(fault) => at == threads + 1 && step == (RecoverStep::Done { outcome: Err(fault) }),
            Ok(runs) => if at == threads + 1 {
                step matches RecoverStep::RecoverWaits { total, queued: of } && total == count + runs
                    && of == queued
            } else {
                replies[last + 1] matches RecoverReply::Counted(woken) && match woken {
                    Err(fault) => at == threads + 2 && step == (RecoverStep::Done {
                        outcome: Err(fault),
                    }),
                    Ok(waits) => if at == threads + 2 {
                        step matches RecoverStep::ScanOrphans { total, queued: of } && total == count
                            + runs + waits && of == queued
                    } else {
                        replies[last + 2] matches RecoverReply::Counted(scanned) && at == threads
                            + 3 && match scanned {
                            Err(fault) => step == (RecoverStep::Done { outcome: Err(fault) }),
                            Ok(orphans) => step matches RecoverStep::Done { outcome: Ok(total) }
                                && total == count + runs + waits + orphans,
                        }
                    },
                }
            },
        }
    }
}

/// A recovery keeps to its course. Every dispatch that is reclaimed is told and
/// reconciled, in order; then the dispatches that have ended are reconciled, the events
/// repaired and the queued threads listed and taken up, each once and in order; and then
/// the three recoveries are made. What it says to have recovered is what it reclaimed
/// and what the three recoveries counted. Where an operation fails, it ends with that
/// error at once.
pub proof fn lemma_recovery_keeps_to_its_course(
    steps: Seq<RecoverStep>,
    replies: Seq<RecoverReply>,
    at: int,
)
    requires
        is_recovery(steps, replies),
        1 <= at < steps.len(),
    ensures
        replies[0] matches RecoverReply::Reclaimed(result) && match result {
            Err(error) => at == 1 && steps[1] == (RecoverStep::Done {
                outcome: Err(Fault::Store(error)),
            }),
            Ok(reclaimed) => is_on_course(reclaimed, replies, at, steps[at]),
        },
    decreases at,
{
    assert(recover_answers(steps[at - 1], replies[at - 1]));
    assert(steps[at] == next_recover_step(steps[at - 1], replies[at - 1]));
    if let RecoverReply::Reclaimed(Ok(reclaimed)) = replies[0] {
        let count: usize = reclaimed.len();
        assert(count == reclaimed@.len());
        if at > 1 {
            lemma_recovery_keeps_to_its_course(steps, replies, at - 1);
            if let RecoverStep::DispatchThread { queued, .. } = steps[at - 1] {
                let threads: usize = queued.len();
                assert(threads == queued@.len());
            }
            if let RecoverReply::Threads(Ok(queued)) = replies[at - 1] {
                let threads: usize = queued.len();
                assert(threads == queued@.len());
            }
        }
    } else if at > 1 {
        lemma_recovery_keeps_to_its_course(steps, replies, at - 1);
    }
}

/// Between the list of the queued threads and the recovery of prepared runs, exactly the
/// listed threads are taken up, each once and in order. So a recovery that succeeds has
/// taken up every thread that was listed as queued.
pub proof fn lemma_every_queued_thread_is_taken_up(
    steps: Seq<RecoverStep>,
    replies: Seq<RecoverReply>,
    i: int,
    queued: Vec<String>,
)
    requires
        is_recovery(steps, replies),
        0 <= i < replies.len(),
        replies[i] == RecoverReply::Threads(Ok(queued)),
    ensures
        forall|j: int|
            0 <= j < queued@.len() && i + 1 + j < steps.len() ==> ((
            #[trigger] steps[i + 1 + j]) matches RecoverStep::DispatchThread { queued: of, at, .. }
                && of == queued && at == j),
        i + 1 + queued@.len() < steps.len() ==> steps[i + 1 + queued@.len()] is RecoverPrepared,
        forall|k: int|
            0 <= k < steps.len() && (k <= i || k > i + queued@.len()) ==> !((#[trigger] steps[k])
                is DispatchThread),
        (steps.last() matches RecoverStep::Done { outcome: Ok(_) }) ==> steps.len() == i + 1
            + queued@.len() + 4,
{
    assert(recover_answers(steps[i], replies[i]));
    let reclaimed = replies[0]->Reclaimed_0->Ok_0;
    if i > 0 {
        lemma_recovery_keeps_to_its_course(steps, replies, i);
    }
    assert(i == 2 * reclaimed@.len() + 3);
    assert forall|j: int| 0 <= j < queued@.len() && i + 1 + j < steps.len() implies (
    (#[trigger] steps[i + 1 + j]) matches RecoverStep::DispatchThread { queued: of, at, .. } && of
        == queued && at == j) by {
        lemma_recovery_keeps_to_its_course(steps, replies, i + 1 + j);
    }
    if i + 1 + queued@.len() < steps.len() {
        lemma_recovery_keeps_to_its_course(steps, replies, i + 1 + queued@.len());
    }
    assert forall|k: int|
        0 <= k < steps.len() && (k <= i || k > i + queued@.len()) implies !((#[trigger] steps[k])
        is DispatchThread) by {
        if k > 0 {
            lemma_recovery_keeps_to_its_course(steps, replies, k);
        }
    }
    lemma_recovery_keeps_to_its_course(steps, replies, steps.len() - 1);
}

/// What a recovery says to have recovered is what it reclaimed and what the recoveries of
/// prepared runs, of background waits and of orphaned messages counted; what the repair
/// of the events counted is no part of it.
pub proof fn lemma_recovery_counts_what_it_recovered(
    steps: Seq<RecoverStep>,
    replies: Seq<RecoverReply>,
    total: usize,
)
    requires
        is_recovery(steps, replies),
        steps.last() == (RecoverStep::Done { outcome: Ok(total) }),
    ensures
        replies.len() >= 7,
        replies[0] matches RecoverReply::Reclaimed(Ok(reclaimed)) && (replies[replies.len()
            - 3] matches RecoverReply::Counted(Ok(prepared)) && (replies[replies.len()
            - 2] matches RecoverReply::Counted(Ok(woken)) && (
        replies.last() matches RecoverReply::Counted(Ok(orphans)) && total == reclaimed@.len()
            + prepared + woken + orphans))),
{
    lemma_recovery_keeps_to_its_course(steps, replies, steps.len() - 1);
}

/// A run was prepared for a dispatch exactly where it names one and either was not begun
/// or waits for input that may continue it.
pub proof fn lemma_prepared_runs_name_their_dispatch(run: RunRecord)
    ensures
        is_prepared(run) <==> run.dispatch_id is Some && (run.status == RunStatus::Created || (
        run.status == RunStatus::Waiting && run.waiting is Some && run.waiting->0.resumable)),
{
}

} // verus!
