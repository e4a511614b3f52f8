//! Cancellation and interruption, and the reconciliation of runs whose dispatch
//! ended.

use vstd::prelude::*;

use crate::dispatch::{
    live_target_for_dispatch, live_target_for_run, target_of_dispatch, target_of_run,
    LiveDeliveryOutcome, LiveRunTarget, MailboxInterruptDetails, RunDispatch, RunDispatchStatus,
};
use crate::error::{Fault, StorageError, MAX_APPEND_ATTEMPTS};
use crate::mailbox::checkpoint::CommitOutcome;
use crate::mailbox::server_event_capture::{
    is_dispatch_event, record_mailbox_dispatch_event, record_mailbox_timeout, EventDraft,
};
use crate::message::{copy_text, Message};
use crate::run::{ErrorPayload, RunRecord, RunStatus, TerminationReason};
use crate::text::same_text;

verus! {

/// How the dispatch of a run ended without it.
#[derive(Clone, Copy, Debug, PartialEq, Eq, Structural)]
pub enum TerminalKind {
    Superseded,
    Cancelled,
    DeadLetter,
}

/// How a dispatch ended without its run, where it did.
pub open spec fn terminal_kind(status: RunDispatchStatus) -> Option<TerminalKind> {
    match status {
        RunDispatchStatus::DeadLetter => Some(TerminalKind::DeadLetter),
        RunDispatchStatus::Cancelled => Some(TerminalKind::Cancelled),
        RunDispatchStatus::Superseded => Some(TerminalKind::Superseded),
        _ => None,
    }
}

/// How the run of a dispatch is to be reconciled with it: not at all while the
/// dispatch is open or was acknowledged.
pub fn reconcile_terminal_dispatch(status: RunDispatchStatus) -> (r: Option<TerminalKind>)
    ensures
        r == terminal_kind(status),
{
    match status {
        RunDispatchStatus::DeadLetter => Some(TerminalKind::DeadLetter),
        RunDispatchStatus::Cancelled => Some(TerminalKind::Cancelled),
        RunDispatchStatus::Superseded => Some(TerminalKind::Superseded),
        _ => None,
    }
}

/// Whether the run of a dispatch that ended is still to be marked: it is of the
/// same thread, and not done.
pub open spec fn is_to_be_marked(run: RunRecord, dispatch: RunDispatch) -> bool {
    run.thread_id@ == dispatch.thread_id@ && run.status != RunStatus::Done
}

/// Why a dispatch was dead-lettered: the error of its run, or else the last error
/// of the dispatch.
pub open spec fn dead_letter_reason(dispatch: RunDispatch) -> Seq<char> {
    match dispatch.run_error {
        Some(error) => error@,
        None => match dispatch.last_error {
            Some(error) => error@,
            None => "mailbox dispatch dead-lettered"@,
        },
    }
}

/// Whether `marked` is the record of a run that its dispatch ended: done, not
/// waiting, with the dispatch's ids, and cancelled or failed as the dispatch says.
pub open spec fn is_marked(
    marked: RunRecord,
    run: RunRecord,
    dispatch: RunDispatch,
    kind: TerminalKind,
    now: u64,
) -> bool {
    &&& marked == (RunRecord {
        status: RunStatus::Done,
        termination_reason: marked.termination_reason,
        error_payload: marked.error_payload,
        dispatch_id: Some(dispatch.dispatch_id),
        session_id: dispatch.dispatch_instance_id,
        waiting: None,
        finished_at: Some(now),
        updated_at: now,
        ..run
    })
    &&& if kind == TerminalKind::DeadLetter {
        &&& marked.termination_reason matches Some(TerminationReason::Error(reason)) && reason@
            == dead_letter_reason(dispatch)
        &&& marked.error_payload matches Some(ErrorPayload::Message { message }) && message@
            == dead_letter_reason(dispatch)
    } else {
        &&& marked.termination_reason == Some(TerminationReason::Cancelled)
        &&& marked.error_payload is None
    }
}

fn mark(run: RunRecord, dispatch: &RunDispatch, kind: TerminalKind, now: u64) -> (r: RunRecord)
    ensures
        is_marked(r, run, *dispatch, kind, now),
{
    let mut marked = run;
    marked.status = RunStatus::Done;
    if kind == TerminalKind::DeadLetter {
        let reason = match &dispatch.run_error {
            Some(error) => error.clone(),
            None => match &dispatch.last_error {
                Some(error) => error.clone(),
                None => "mailbox dispatch dead-lettered".to_owned(),
            },
        };
        marked.termination_reason = Some(TerminationReason::Error(reason.clone()));
        marked.error_payload = Some(ErrorPayload::Message { message: reason });
    } else {
        marked.termination_reason = Some(TerminationReason::Cancelled);
        marked.error_payload = None;
    }
    marked.dispatch_id = Some(dispatch.dispatch_id.clone());
    marked.session_id = copy_text(&dispatch.dispatch_instance_id);
    marked.waiting = None;
    marked.finished_at = Some(now);
    marked.updated_at = now;
    marked
}

/// Marking is done once: a record that was marked is done, so it is not marked
/// again, whatever the dispatch.
pub proof fn lemma_marking_is_done_once(
    marked: RunRecord,
    run: RunRecord,
    dispatch: RunDispatch,
    kind: TerminalKind,
    now: u64,
    other: RunDispatch,
)
    requires
        is_marked(marked, run, dispatch, kind, now),
    ensures
        !is_to_be_marked(marked, other),
        marked.run_id == run.run_id,
        marked.thread_id == run.thread_id,
        marked.input == run.input,
        marked.activation == run.activation,
{
}

/// The operation that is due in marking the run of a dispatch that ended.
#[derive(Debug, PartialEq)]
pub enum MarkStep {
    /// Load the run of the dispatch.
    LoadRun,
    /// Load the committed messages of the thread.
    LoadCommitted { record: RunRecord, attempts: usize },
    /// Write the record, if the log still has as many messages as `log`.
    Commit { record: RunRecord, attempts: usize, log: Vec<Message> },
    /// Refresh the worker's cache of the thread.
    RefreshCache { record: RunRecord, log: Vec<Message> },
    /// Publish that the run was cancelled.
    PublishCancelled,
    /// The marking is over: whether the run was marked.
    Done { outcome: Result<bool, Fault> },
}

/// The reply to the operation of a step. Times are in seconds.
#[derive(Debug, PartialEq)]
pub enum MarkReply {
    Run { result: Result<Option<RunRecord>, StorageError>, now: u64 },
    Messages(Result<Option<Vec<Message>>, StorageError>),
    Committed(CommitOutcome),
    Performed,
}

/// Whether a reply is one that the operation of a step gives.
pub open spec fn mark_answers(step: MarkStep, reply: MarkReply) -> bool {
    match step {
        MarkStep::LoadRun => reply is Run,
        MarkStep::LoadCommitted { .. } => reply is Messages,
        MarkStep::Commit { .. } => reply is Committed,
        MarkStep::RefreshCache { .. } => reply is Performed,
        MarkStep::PublishCancelled => reply is Performed,
        MarkStep::Done { .. } => false,
    }
}

/// Whether `next` is a step that a reply may lead to.
pub open spec fn mark_follows(
    dispatch: RunDispatch,
    kind: TerminalKind,
    step: MarkStep,
    reply: MarkReply,
    next: MarkStep,
) -> bool {
    match (step, reply) {
        (MarkStep::LoadRun, MarkReply::Run { result, now }) => match result {
            Err(error) => next == (MarkStep::Done { outcome: Err(Fault::Store(error)) }),
            Ok(None) => next == (MarkStep::Done { outcome: Ok(false) }),
            Ok(Some(run)) => if is_to_be_marked(run, dispatch) {
                next matches MarkStep::LoadCommitted { record, attempts } && attempts == 0
                    && is_marked(record, run, dispatch, kind, now)
            } else {
                next == (MarkStep::Done { outcome: Ok(false) })
            },
        },
        (MarkStep::LoadCommitted { record, attempts }, MarkReply::Messages(result)) => match result {
            Err(error) => next == (MarkStep::Done { outcome: Err(Fault::Store(error)) }),
            Ok(Some(log)) => next == (MarkStep::Commit { record, attempts, log }),
            Ok(None) => next matches MarkStep::Commit { record: r, attempts: a, log } && r == record
                && a == attempts && log@.len() == 0,
        },
        (MarkStep::Commit { record, attempts, log }, MarkReply::Committed(outcome)) => next == (
        match outcome {
            CommitOutcome::Committed => MarkStep::RefreshCache { record, log },
            CommitOutcome::Conflict => if attempts + 1 < MAX_APPEND_ATTEMPTS {
                MarkStep::LoadCommitted { record, attempts: (attempts + 1) as usize }
            } else {
                MarkStep::Done {
                    outcome: Err(
                        Fault::TerminalRetriesExhausted { thread_id: dispatch.thread_id },
                    ),
                }
            },
            CommitOutcome::Failed { error } => MarkStep::Done {
                outcome: Err(Fault::CommitFailed { error }),
            },
        }),
        (MarkStep::RefreshCache { .. }, _) => next == (if kind == TerminalKind::Cancelled {
            MarkStep::PublishCancelled
        } else {
            MarkStep::Done { outcome: Ok(true) }
        }),
        (MarkStep::PublishCancelled, _) => next == (MarkStep::Done { outcome: Ok(true) }),
        _ => false,
    }
}

/// The marking of the run of a dispatch that ended.
#[derive(Debug, PartialEq)]
pub struct TerminalMark {
    pub dispatch: RunDispatch,
    pub kind: TerminalKind,
    pub step: MarkStep,
}

/// Whether an event is the one that the due step of a marking publishes, where it
/// publishes one.
pub open spec fn is_mark_event(mark: TerminalMark, event: Option<EventDraft>) -> bool {
    match mark.step {
        MarkStep::PublishCancelled => event matches Some(draft) && is_dispatch_event(
            draft,
            "RunCancelled",
            mark.dispatch,
            None,
            None,
            None,
        ),
        _ => event is None,
    }
}

impl TerminalMark {
    /// The event that the due step publishes, where it publishes one.
    pub fn event(&self) -> (r: Option<EventDraft>)
        ensures
            is_mark_event(*self, r),
    {
        match &self.step {
            MarkStep::PublishCancelled => Some(
                record_mailbox_dispatch_event("RunCancelled", &self.dispatch),
            ),
            _ => None,
        }
    }

    /// Begin to mark the run of a dispatch that was superseded.
    pub fn mark_superseded_dispatch_run_cancelled(dispatch: RunDispatch) -> (r: TerminalMark)
        ensures
            r == (TerminalMark {
                dispatch,
                kind: TerminalKind::Superseded,
                step: MarkStep::LoadRun,
            }),
    {
        TerminalMark { dispatch, kind: TerminalKind::Superseded, step: MarkStep::LoadRun }
    }

    /// Begin to mark the run of a dispatch that was cancelled.
    pub fn mark_cancelled_dispatch_run_cancelled(dispatch: RunDispatch) -> (r: TerminalMark)
        ensures
            r == (TerminalMark {
                dispatch,
                kind: TerminalKind::Cancelled,
                step: MarkStep::LoadRun,
            }),
    {
        TerminalMark { dispatch, kind: TerminalKind::Cancelled, step: MarkStep::LoadRun }
    }

    /// Begin to mark the run of a dispatch that was dead-lettered.
    pub fn mark_dead_letter_dispatch_run_error(dispatch: RunDispatch) -> (r: TerminalMark)
        ensures
            r == (TerminalMark {
                dispatch,
                kind: TerminalKind::DeadLetter,
                step: MarkStep::LoadRun,
            }),
    {
        TerminalMark { dispatch, kind: TerminalKind::DeadLetter, step: MarkStep::LoadRun }
    }

    /// Whether a reply is one that the operation of the due step gives.
    pub fn expects(&self, reply: &MarkReply) -> (r: bool)
        ensures
            r == mark_answers(self.step, *reply),
    {
        match (&self.step, reply) {
            (MarkStep::LoadRun, MarkReply::Run { .. }) => true,
            (MarkStep::LoadCommitted { .. }, MarkReply::Messages(_)) => true,
            (MarkStep::Commit { .. }, MarkReply::Committed(_)) => true,
            (MarkStep::RefreshCache { .. }, MarkReply::Performed) => true,
            (MarkStep::PublishCancelled, MarkReply::Performed) => true,
            _ => false,
        }
    }

    /// Take the reply to the operation that was due.
    pub fn advance(self, reply: MarkReply) -> (r: TerminalMark)
        requires
            mark_answers(self.step, reply),
        ensures
            r.dispatch == self.dispatch,
            r.kind == self.kind,
            mark_follows(self.dispatch, self.kind, self.step, reply, r.step),
    {
        let dispatch = self.dispatch;
        let kind = self.kind;
        let step = match (self.step, reply) {
            (MarkStep::LoadRun, MarkReply::Run { result, now }) => match result {
                Err(error) => MarkStep::Done { outcome: Err(Fault::Store(error)) },
                Ok(None) => MarkStep::Done { outcome: Ok(false) },
                Ok(Some(run)) => if same_text(run.thread_id.as_str(), dispatch.thread_id.as_str())
                    && run.status != RunStatus::Done {
                    MarkStep::LoadCommitted {
                        record: mark(run, &dispatch, kind, now),
                        attempts: 0,
                    }
                } else {
                    MarkStep::Done { outcome: Ok(false) }
                },
            },
            (MarkStep::LoadCommitted { record, attempts }, MarkReply::Messages(result)) =>
            match result {
                Err(error) => MarkStep::Done { outcome: Err(Fault::Store(error)) },
                Ok(Some(log)) => MarkStep::Commit { record, attempts, log },
                Ok(None) => MarkStep::Commit { record, attempts, log: Vec::new() },
            },
            (MarkStep::Commit { record, attempts, log }, MarkReply::Committed(outcome)) =>
            match outcome {
                CommitOutcome::Committed => MarkStep::RefreshCache { record, log },
                CommitOutcome::Conflict => if attempts < MAX_APPEND_ATTEMPTS - 1 {
                    MarkStep::LoadCommitted { record, attempts: attempts + 1 }
                } else {
                    MarkStep::Done {
                        outcome: Err(
                            Fault::TerminalRetriesExhausted {
                                thread_id: dispatch.thread_id.clone(),
                            },
                        ),
                    }
                },
                CommitOutcome::Failed { error } => MarkStep::Done {
                    outcome: Err(Fault::CommitFailed { error }),
                },
            },
            (MarkStep::RefreshCache { record: _, log: _ }, _) => if kind == TerminalKind::Cancelled {
                MarkStep::PublishCancelled
            } else {
                MarkStep::Done { outcome: Ok(true) }
            },
            (MarkStep::PublishCancelled, _) => MarkStep::Done { outcome: Ok(true) },
            (step, _) => step,
        };
        TerminalMark { dispatch, kind, step }
    }
}

/// A marking: the steps that were due and the replies to them.
pub open spec fn is_marking(
    dispatch: RunDispatch,
    kind: TerminalKind,
    steps: Seq<MarkStep>,
    replies: Seq<MarkReply>,
) -> bool {
    &&& steps.len() == replies.len() + 1
    &&& steps[0] is LoadRun
    &&& forall|i: int|
        #![trigger replies[i]]
        0 <= i < replies.len() ==> mark_answers(steps[i], replies[i]) && mark_follows(
            dispatch,
            kind,
            steps[i],
            replies[i],
            steps[i + 1],
        )
}

/// How many writes a marking has tried.
pub open spec fn writes_tried(steps: Seq<MarkStep>) -> nat
    decreases steps.len(),
{
    if steps.len() == 0 {
        0
    } else {
        writes_tried(steps.drop_last()) + (if steps.last() is Commit {
            1nat
        } else {
            0nat
        })
    }
}

/// What holds of a step of a marking: the record that is written is the run of the
/// first reply, marked, and it is written at most eight times.
pub open spec fn marking_invariant(
    dispatch: RunDispatch,
    kind: TerminalKind,
    steps: Seq<MarkStep>,
    replies: Seq<MarkReply>,
    at: int,
) -> bool {
    let tried = writes_tried(steps.take(at + 1));
    match steps[at] {
        MarkStep::LoadRun => at == 0 && tried == 0,
        MarkStep::LoadCommitted { record, attempts } => at > 0 && marks_first_reply(
            dispatch,
            kind,
            replies[0],
            record,
        ) && attempts < MAX_APPEND_ATTEMPTS && tried == attempts,
        MarkStep::Commit { record, attempts, .. } => at > 0 && marks_first_reply(
            dispatch,
            kind,
            replies[0],
            record,
        ) && attempts < MAX_APPEND_ATTEMPTS && tried == attempts + 1,
        MarkStep::RefreshCache { record, .. } => at > 0 && marks_first_reply(
            dispatch,
            kind,
            replies[0],
            record,
        ) && tried <= MAX_APPEND_ATTEMPTS,
        MarkStep::PublishCancelled => tried <= MAX_APPEND_ATTEMPTS && kind
            == TerminalKind::Cancelled,
        MarkStep::Done { .. } => tried <= MAX_APPEND_ATTEMPTS,
    }
}

/// Whether a record is the run of a reply, marked.
pub open spec fn marks_first_reply(
    dispatch: RunDispatch,
    kind: TerminalKind,
    reply: MarkReply,
    record: RunRecord,
) -> bool {
    reply matches MarkReply::Run { result: Ok(Some(run)), now } && is_to_be_marked(run, dispatch)
        && is_marked(record, run, dispatch, kind, now)
}

/// A run is marked at most once by a marking, with at most eight writes, and only
/// where it is of the dispatch's thread and not done. The record that is written
/// is the one that was loaded but for its end.
pub proof fn lemma_marking_writes_only_the_end(
    dispatch: RunDispatch,
    kind: TerminalKind,
    steps: Seq<MarkStep>,
    replies: Seq<MarkReply>,
    at: int,
)
    requires
        is_marking(dispatch, kind, steps, replies),
        0 <= at < steps.len(),
    ensures
        marking_invariant(dispatch, kind, steps, replies, at),
    decreases at,
{
    assert(steps.take(at + 1).drop_last() =~= steps.take(at));
    assert(steps.take(at + 1).last() == steps[at]);
    if at == 0 {
        assert(steps.take(0).len() == 0);
    } else {
        lemma_marking_writes_only_the_end(dispatch, kind, steps, replies, at - 1);
        assert(mark_answers(steps[at - 1], replies[at - 1]));
        assert(mark_follows(dispatch, kind, steps[at - 1], replies[at - 1], steps[at]));
    }
}

/// The operation that is due in the reconciliation of ended dispatches.
#[derive(Debug, PartialEq)]
pub enum ReconcileStep {
    /// List a page of ended dispatches.
    List { offset: usize },
    /// Reconcile the run of the dispatch `at` of the page.
    Reconcile { offset: usize, page: Vec<RunDispatch>, at: usize },
    /// There is nothing more to reconcile.
    Done,
}

/// The reply to the operation of a step.
#[derive(Debug, PartialEq)]
pub enum ReconcileReply {
    Listed(Result<Vec<RunDispatch>, StorageError>),
    Performed,
}

/// The reconciliation of runs whose dispatches ended, a page of dispatches at a
/// time.
#[derive(Debug, PartialEq)]
pub struct TerminalReconciliation {
    pub batch: usize,
    pub step: ReconcileStep,
}

/// Whether a reply is one that the operation of a step gives. The dispatches that
/// were listed can be counted.
pub open spec fn reconcile_answers(step: ReconcileStep, reply: ReconcileReply) -> bool {
    match step {
        ReconcileStep::List { .. } => reply is Listed,
        ReconcileStep::Reconcile { offset, page, at } => {
            &&& reply is Performed
            &&& at < page@.len()
            &&& offset + page@.len() <= usize::MAX
        },
        ReconcileStep::Done => false,
    }
}

/// The step that a reply leads to. A page that could not be listed or is empty is the
/// last, and so is one that is shorter than a page can be.
pub open spec fn next_reconcile_step(
    batch: usize,
    step: ReconcileStep,
    reply: ReconcileReply,
) -> ReconcileStep {
    match (step, reply) {
        (ReconcileStep::List { offset }, ReconcileReply::Listed(Ok(page))) => if page@.len() > 0 {
            ReconcileStep::Reconcile { offset, page, at: 0 }
        } else {
            ReconcileStep::Done
        },
        (ReconcileStep::Reconcile { offset, page, at }, _) => if at + 1 < page@.len() {
            ReconcileStep::Reconcile { offset, page, at: (at + 1) as usize }
        } else if page@.len() < batch {
            ReconcileStep::Done
        } else {
            ReconcileStep::List { offset: (offset + page@.len()) as usize }
        },
        _ => ReconcileStep::Done,
    }
}

impl TerminalReconciliation {
    /// Begin the reconciliation, with pages of `batch` dispatches.
    pub fn reconcile_terminal_dispatches(batch: usize) -> (r: TerminalReconciliation)
        ensures
            r == (TerminalReconciliation { batch, step: ReconcileStep::List { offset: 0 } }),
    {
        TerminalReconciliation { batch, step: ReconcileStep::List { offset: 0 } }
    }

    /// The dispatch whose run is to be reconciled, and how the run is to be marked, if
    /// at all.
    pub fn due(&self) -> (r: Option<(&RunDispatch, Option<TerminalKind>)>)
        ensures
            match self.step {
                ReconcileStep::Reconcile { page, at, .. } => (r is Some) == (at < page@.len()) && (
                r matches Some(pair) ==> *pair.0 == page@[at as int] && pair.1 == terminal_kind(
                    page@[at as int].status,
                )),
                _ => r is None,
            },
    {
        match &self.step {
            ReconcileStep::Reconcile { page, at, .. } => if *at < page.len() {
                Some((&page[*at], reconcile_terminal_dispatch(page[*at].status)))
            } else {
                None
            },
            _ => None,
        }
    }

    /// Whether a reply is one that the operation of the due step gives.
    pub fn expects(&self, reply: &ReconcileReply) -> (r: bool)
        ensures
            r == reconcile_answers(self.step, *reply),
    {
        match (&self.step, reply) {
            (ReconcileStep::List { .. }, ReconcileReply::Listed(_)) => true,
            (
                ReconcileStep::Reconcile { offset, page, at },
                ReconcileReply::Performed,
            ) => *at < page.len() && *offset <= usize::MAX - page.len(),
            _ => false,
        }
    }

    /// Take the reply to the operation that was due.
    pub fn advance(self, reply: ReconcileReply) -> (r: TerminalReconciliation)
        requires
            reconcile_answers(self.step, reply),
        ensures
            r.batch == self.batch,
            r.step == next_reconcile_step(self.batch, self.step, reply),
    {
        let step = match (self.step, reply) {
            (ReconcileStep::List { offset }, ReconcileReply::Listed(Ok(page))) => if page.len() > 0 {
                ReconcileStep::Reconcile { offset, page, at: 0 }
            } else {
                ReconcileStep::Done
            },
            (ReconcileStep::Reconcile { offset, page, at }, _) => if at + 1 < page.len() {
                ReconcileStep::Reconcile { offset, page, at: at + 1 }
            } else if page.len() < self.batch {
                ReconcileStep::Done
            } else {
                ReconcileStep::List { offset: offset + page.len() }
            },
            _ => ReconcileStep::Done,
        };
        TerminalReconciliation { batch: self.batch, step }
    }
}

/// A reconciliation: the step before each reply, and the replies.
pub open spec fn is_reconciliation(
    batch: usize,
    steps: Seq<ReconcileStep>,
    replies: Seq<ReconcileReply>,
) -> bool {
    &&& steps.len() == replies.len() + 1
    &&& steps[0] == (ReconcileStep::List { offset: 0 })
    &&& forall|i: int|
        #![trigger replies[i]]
        0 <= i < replies.len() ==> reconcile_answers(steps[i], replies[i]) && steps[i + 1]
            == next_reconcile_step(batch, steps[i], replies[i])
}

/// The dispatches that the first `n` replies listed.
pub open spec fn listed_before(replies: Seq<ReconcileReply>, n: int) -> Seq<RunDispatch>
    decreases n,
{
    if n <= 0 {
        seq![]
    } else {
        listed_before(replies, n - 1) + (match replies[n - 1] {
            ReconcileReply::Listed(Ok(page)) => page@,
            _ => seq![],
        })
    }
}

/// The dispatches whose runs were reconciled in the first `n` steps.
pub open spec fn reconciled_before(steps: Seq<ReconcileStep>, n: int) -> Seq<RunDispatch>
    decreases n,
{
    if n <= 0 {
        seq![]
    } else {
        reconciled_before(steps, n - 1) + (match steps[n - 1] {
            ReconcileStep::Reconcile { page, at, .. } => seq![page@[at as int]],
            _ => seq![],
        })
    }
}

/// The dispatches of the page at hand that are still to be reconciled.
pub open spec fn left_to_reconcile(step: ReconcileStep) -> Seq<RunDispatch> {
    match step {
        ReconcileStep::Reconcile { page, at, .. } => page@.skip(at as int),
        _ => seq![],
    }
}

/// Every dispatch that is listed is reconciled, once and in the order of the list; and
/// each page begins where the one before it ended.
pub proof fn lemma_every_listed_dispatch_is_reconciled(
    batch: usize,
    steps: Seq<ReconcileStep>,
    replies: Seq<ReconcileReply>,
    at: int,
)
    requires
        is_reconciliation(batch, steps, replies),
        0 <= at < steps.len(),
    ensures
        listed_before(replies, at) == reconciled_before(steps, at) + left_to_reconcile(steps[at]),
        steps[at] is Done ==> listed_before(replies, at) == reconciled_before(steps, at),
        match steps[at] {
            ReconcileStep::List { offset } => offset == listed_before(replies, at).len(),
            ReconcileStep::Reconcile { offset, page, at: k } => k < page@.len() && offset
                + page@.len() == listed_before(replies, at).len(),
            ReconcileStep::Done => true,
        },
    decreases at,
{
    if at > 0 {
        lemma_every_listed_dispatch_is_reconciled(batch, steps, replies, at - 1);
        let before = steps[at - 1];
        let reply = replies[at - 1];
        assert(reconcile_answers(before, reply));
        assert(steps[at] == next_reconcile_step(batch, before, reply));
        if let ReconcileStep::Reconcile { page, at: k, .. } = before {
            assert(page@.skip(k as int) =~= seq![page@[k as int]] + page@.skip(k + 1));
            if k + 1 == page@.len() {
                assert(page@.skip(k + 1) =~= seq![]);
            }
        }
        if let ReconcileStep::Reconcile { page, at: k, .. } = steps[at] {
            if before is List {
                assert(page@.skip(0) =~= page@);
            }
        }
        assert(listed_before(replies, at) =~= reconciled_before(steps, at) + left_to_reconcile(
            steps[at],
        ));
    }
}

/// The operation that is due in reaching a run by an id, be it of a dispatch, of
/// a run or of a thread.
#[derive(Debug, PartialEq)]
pub enum RouteStep {
    /// Load the dispatch of that id.
    LoadDispatch,
    /// Load the run of that id.
    LoadRun,
    /// Load the latest run of the thread of that id.
    LatestRun,
    /// Deliver the command to the run.
    Deliver { target: LiveRunTarget },
    /// The run that took the command, if one did.
    Done { outcome: Result<Option<LiveRunTarget>, Fault> },
}

/// The reply to the operation of a step.
#[derive(Debug, PartialEq)]
pub enum RouteReply {
    Dispatch(Result<Option<RunDispatch>, StorageError>),
    Run(Result<Option<RunRecord>, StorageError>),
    Delivered(Result<LiveDeliveryOutcome, StorageError>),
}

/// Whether a reply is one that the operation of a step gives.
pub open spec fn route_answers(step: RouteStep, reply: RouteReply) -> bool {
    match step {
        RouteStep::LoadDispatch => reply is Dispatch,
        RouteStep::LoadRun => reply is Run,
        RouteStep::LatestRun => reply is Run,
        RouteStep::Deliver { .. } => reply is Delivered,
        RouteStep::Done { .. } => false,
    }
}

/// Whether a run can take a command.
pub open spec fn is_live(run: RunRecord) -> bool {
    run.status == RunStatus::Running || run.status == RunStatus::Waiting
}

/// The step after a run was found, or none.
pub open spec fn route_to_run(run: Option<RunRecord>) -> RouteStep {
    match run {
        Some(found) => if is_live(found) {
            RouteStep::Deliver { target: target_of_run(found) }
        } else {
            RouteStep::Done { outcome: Ok(None) }
        },
        None => RouteStep::Done { outcome: Ok(None) },
    }
}

/// The step that a reply leads to. A claimed dispatch comes before a run of that
/// id, and that before the latest run of a thread of that id.
pub open spec fn next_route_step(step: RouteStep, reply: RouteReply) -> RouteStep {
    match (step, reply) {
        (RouteStep::LoadDispatch, RouteReply::Dispatch(result)) => match result {
            Err(error) => RouteStep::Done { outcome: Err(Fault::Store(error)) },
            Ok(Some(dispatch)) => if dispatch.status == RunDispatchStatus::Claimed {
                RouteStep::Deliver { target: target_of_dispatch(dispatch) }
            } else {
                RouteStep::LoadRun
            },
            Ok(None) => RouteStep::LoadRun,
        },
        (RouteStep::LoadRun, RouteReply::Run(result)) => match result {
            Err(error) => RouteStep::Done { outcome: Err(Fault::Store(error)) },
            Ok(Some(run)) => route_to_run(Some(run)),
            Ok(None) => RouteStep::LatestRun,
        },
        (RouteStep::LatestRun, RouteReply::Run(result)) => match result {
            Err(error) => RouteStep::Done { outcome: Err(Fault::Store(error)) },
            Ok(run) => route_to_run(run),
        },
        (RouteStep::Deliver { target }, RouteReply::Delivered(result)) => match result {
            Err(error) => RouteStep::Done { outcome: Err(Fault::Store(error)) },
            Ok(LiveDeliveryOutcome::Delivered) => RouteStep::Done { outcome: Ok(Some(target)) },
            Ok(LiveDeliveryOutcome::NoSubscriber) => RouteStep::Done { outcome: Ok(None) },
        },
        _ => step,
    }
}

/// Whether a reply is one that the operation of a step gives.
pub fn route_expects(step: &RouteStep, reply: &RouteReply) -> (r: bool)
    ensures
        r == route_answers(*step, *reply),
{
    match (step, reply) {
        (RouteStep::LoadDispatch, RouteReply::Dispatch(_)) => true,
        (RouteStep::LoadRun, RouteReply::Run(_)) => true,
        (RouteStep::LatestRun, RouteReply::Run(_)) => true,
        (RouteStep::Deliver { .. }, RouteReply::Delivered(_)) => true,
        _ => false,
    }
}

fn to_run(run: Option<RunRecord>) -> (r: RouteStep)
    ensures
        r == route_to_run(run),
{
    match run {
        Some(found) => if found.status == RunStatus::Running || found.status == RunStatus::Waiting {
            RouteStep::Deliver { target: live_target_for_run(&found) }
        } else {
            RouteStep::Done { outcome: Ok(None) }
        },
        None => RouteStep::Done { outcome: Ok(None) },
    }
}

/// The step that a reply leads to.
pub fn advance_route(step: RouteStep, reply: RouteReply) -> (r: RouteStep)
    requires
        route_answers(step, reply),
    ensures
        r == next_route_step(step, reply),
{
    match (step, reply) {
        (RouteStep::LoadDispatch, RouteReply::Dispatch(result)) => match result {
            Err(error) => RouteStep::Done { outcome: Err(Fault::Store(error)) },
            Ok(Some(dispatch)) => if dispatch.status == RunDispatchStatus::Claimed {
                RouteStep::Deliver { target: live_target_for_dispatch(&dispatch) }
            } else {
                RouteStep::LoadRun
            },
            Ok(None) => RouteStep::LoadRun,
        },
        (RouteStep::LoadRun, RouteReply::Run(result)) => match result {
            Err(error) => RouteStep::Done { outcome: Err(Fault::Store(error)) },
            Ok(Some(run)) => to_run(Some(run)),
            Ok(None) => RouteStep::LatestRun,
        },
        (RouteStep::LatestRun, RouteReply::Run(result)) => match result {
            Err(error) => RouteStep::Done { outcome: Err(Fault::Store(error)) },
            Ok(run) => to_run(run),
        },
        (RouteStep::Deliver { target }, RouteReply::Delivered(result)) => match result {
            Err(error) => RouteStep::Done { outcome: Err(Fault::Store(error)) },
            Ok(LiveDeliveryOutcome::Delivered) => RouteStep::Done { outcome: Ok(Some(target)) },
            Ok(LiveDeliveryOutcome::NoSubscriber) => RouteStep::Done { outcome: Ok(None) },
        },
        (step, _) => step,
    }
}

/// A command goes only to a dispatch that is claimed or to a run that is running
/// or waiting, and counts as taken only where a subscriber took it.
pub proof fn lemma_commands_go_to_live_runs(step: RouteStep, reply: RouteReply)
    requires
        route_answers(step, reply),
    ensures
        match next_route_step(step, reply) {
            RouteStep::Deliver { target } => {
                ||| reply matches RouteReply::Dispatch(Ok(Some(dispatch))) && dispatch.status
                    == RunDispatchStatus::Claimed && target == target_of_dispatch(dispatch)
                ||| reply matches RouteReply::Run(Ok(Some(run))) && is_live(run) && target
                    == target_of_run(run)
            },
            RouteStep::Done { outcome: Ok(Some(target)) } => step == (RouteStep::Deliver { target })
                && reply == RouteReply::Delivered(Ok(LiveDeliveryOutcome::Delivered)),
            _ => true,
        },
{
}

/// The operation that is due in cancelling a run by the id of a dispatch, of a
/// run or of a thread.
#[derive(Debug, PartialEq)]
pub enum CancelStep {
    /// Cancel the queued dispatch of that id in the store.
    StoreCancel,
    /// Mark the run of the dispatch as cancelled.
    Mark { dispatch: RunDispatch },
    /// Cancel the run of this process.
    RuntimeCancel,
    /// Reach the run, wherever it is under way.
    Route { route: RouteStep },
    /// The cancellation is over: whether anything was cancelled.
    Done { outcome: Result<bool, Fault> },
}

/// The reply to the operation of a step.
#[derive(Debug, PartialEq)]
pub enum CancelReply {
    Cancelled(Result<Option<RunDispatch>, StorageError>),
    Performed,
    Accepted(bool),
    Routed(RouteReply),
}

/// Whether a reply is one that the operation of a step gives.
pub open spec fn cancel_answers(step: CancelStep, reply: CancelReply) -> bool {
    match step {
        CancelStep::StoreCancel => reply is Cancelled,
        CancelStep::Mark { .. } => reply is Performed,
        CancelStep::RuntimeCancel => reply is Accepted,
        CancelStep::Route { route } => reply matches CancelReply::Routed(inner) && route_answers(
            route,
            inner,
        ),
        CancelStep::Done { .. } => false,
    }
}

/// The step of a cancellation at a step of its route.
pub open spec fn cancel_on_route(route: RouteStep) -> CancelStep {
    match route {
        RouteStep::Done { outcome: Ok(target) } => CancelStep::Done { outcome: Ok(target is Some) },
        RouteStep::Done { outcome: Err(fault) } => CancelStep::Done { outcome: Err(fault) },
        _ => CancelStep::Route { route },
    }
}

/// The step that a reply leads to.
pub open spec fn next_cancel_step(step: CancelStep, reply: CancelReply) -> CancelStep {
    match (step, reply) {
        (CancelStep::StoreCancel, CancelReply::Cancelled(result)) => match result {
            Err(error) => CancelStep::Done { outcome: Err(Fault::Store(error)) },
            Ok(Some(dispatch)) => CancelStep::Mark { dispatch },
            Ok(None) => CancelStep::RuntimeCancel,
        },
        (CancelStep::Mark { .. }, _) => CancelStep::Done { outcome: Ok(true) },
        (CancelStep::RuntimeCancel, CancelReply::Accepted(accepted)) => if accepted {
            CancelStep::Done { outcome: Ok(true) }
        } else {
            CancelStep::Route { route: RouteStep::LoadDispatch }
        },
        (CancelStep::Route { route }, CancelReply::Routed(inner)) => cancel_on_route(
            next_route_step(route, inner),
        ),
        _ => step,
    }
}

/// A cancellation by an id.
#[derive(Debug, PartialEq)]
pub struct Cancellation {
    pub id: String,
    pub step: CancelStep,
}

impl Cancellation {
    /// Begin to cancel what the id names: a queued dispatch in the store, or else
    /// a run that is under way, here or elsewhere.
    pub fn cancel(id: String) -> (r: Cancellation)
        ensures
            r == (Cancellation { id, step: CancelStep::StoreCancel }),
    {
        Cancellation { id, step: CancelStep::StoreCancel }
    }

    /// Whether a reply is one that the operation of the due step gives.
    pub fn expects(&self, reply: &CancelReply) -> (r: bool)
        ensures
            r == cancel_answers(self.step, *reply),
    {
        match (&self.step, reply) {
            (CancelStep::StoreCancel, CancelReply::Cancelled(_)) => true,
            (CancelStep::Mark { .. }, CancelReply::Performed) => true,
            (CancelStep::RuntimeCancel, CancelReply::Accepted(_)) => true,
            (CancelStep::Route { route }, CancelReply::Routed(inner)) => route_expects(
                route,
                inner,
            ),
            _ => false,
        }
    }

    /// Take the reply to the operation that was due.
    pub fn advance(self, reply: CancelReply) -> (r: Cancellation)
        requires
            cancel_answers(self.step, reply),
        ensures
            r.id == self.id,
            r.step == next_cancel_step(self.step, reply),
    {
        let step = match (self.step, reply) {
            (CancelStep::StoreCancel, CancelReply::Cancelled(result)) => match result {
                Err(error) => CancelStep::Done { outcome: Err(Fault::Store(error)) },
                Ok(Some(dispatch)) => CancelStep::Mark { dispatch },
                Ok(None) => CancelStep::RuntimeCancel,
            },
            (CancelStep::Mark { .. }, _) => CancelStep::Done { outcome: Ok(true) },
            (CancelStep::RuntimeCancel, CancelReply::Accepted(accepted)) => if accepted {
                CancelStep::Done { outcome: Ok(true) }
            } else {
                CancelStep::Route { route: RouteStep::LoadDispatch }
            },
            (CancelStep::Route { route }, CancelReply::Routed(inner)) => {
                match advance_route(route, inner) {
                    RouteStep::Done { outcome: Ok(target) } => CancelStep::Done {
                        outcome: Ok(target.is_some()),
                    },
                    RouteStep::Done { outcome: Err(fault) } => CancelStep::Done {
                        outcome: Err(fault),
                    },
                    route => CancelStep::Route { route },
                }
            },
            (step, _) => step,
        };
        Cancellation { id: self.id, step }
    }
}

/// A cancellation reports success only where a queued dispatch was cancelled in
/// the store, this process cancelled the run, or a subscriber took the command.
pub proof fn lemma_cancellation_is_honest(step: CancelStep, reply: CancelReply)
    requires
        cancel_answers(step, reply),
        next_cancel_step(step, reply) == (CancelStep::Done { outcome: Ok(true) }),
    ensures
        step is Mark || reply == CancelReply::Accepted(true) || reply == CancelReply::Routed(
            RouteReply::Delivered(Ok(LiveDeliveryOutcome::Delivered)),
        ),
{
}

/// The operation that is due in cancelling the active dispatch of a thread.
#[derive(Debug, PartialEq)]
pub enum ActiveStep {
    /// Cancel the thread's run in this process, and wait until it has ended.
    CancelAndWait,
    /// Cancel the thread's run in this process.
    Cancel,
    /// Deliver a cancel command to the run, wherever it is under way.
    Deliver { target: LiveRunTarget },
    /// Wait until the dispatch is no longer claimed.
    AwaitRelease { remote: bool },
    /// Publish that the wait timed out.
    PublishTimeout { operation: &'static str },
    /// The cancellation is over: whether the run was cancelled.
    Done { outcome: Result<bool, Fault> },
}

/// The reply to the operation of a step.
#[derive(Debug, PartialEq)]
pub enum ActiveReply {
    Accepted(bool),
    Delivered(Result<LiveDeliveryOutcome, StorageError>),
    Released(Result<bool, StorageError>),
    Performed,
}

/// Whether a reply is one that the operation of a step gives.
pub open spec fn active_answers(step: ActiveStep, reply: ActiveReply) -> bool {
    match step {
        ActiveStep::CancelAndWait => reply is Accepted,
        ActiveStep::Cancel => reply is Accepted,
        ActiveStep::Deliver { .. } => reply is Delivered,
        ActiveStep::AwaitRelease { .. } => reply is Released,
        ActiveStep::PublishTimeout { .. } => reply is Performed,
        ActiveStep::Done { .. } => false,
    }
}

/// The wait that timed out: after a cancel in this process, or one elsewhere.
pub open spec fn release_operation(remote: bool) -> &'static str {
    if remote {
        "remote_cancel_release_wait"
    } else {
        "local_cancel_release_wait"
    }
}

/// The first operation of a cancellation: with a wait for the release, or without.
pub open spec fn first_active_step(wait_for_release: bool) -> ActiveStep {
    if wait_for_release {
        ActiveStep::CancelAndWait
    } else {
        ActiveStep::Cancel
    }
}

/// The step that a reply leads to.
pub open spec fn next_active_step(
    active: RunDispatch,
    wait_for_release: bool,
    step: ActiveStep,
    reply: ActiveReply,
) -> ActiveStep {
    match (step, reply) {
        (ActiveStep::CancelAndWait, ActiveReply::Accepted(accepted)) => if accepted {
            ActiveStep::AwaitRelease { remote: false }
        } else {
            ActiveStep::Deliver { target: target_of_dispatch(active) }
        },
        (ActiveStep::Cancel, ActiveReply::Accepted(accepted)) => if accepted {
            ActiveStep::Done { outcome: Ok(true) }
        } else {
            ActiveStep::Deliver { target: target_of_dispatch(active) }
        },
        (ActiveStep::Deliver { .. }, ActiveReply::Delivered(result)) => match result {
            Err(error) => ActiveStep::Done { outcome: Err(Fault::Store(error)) },
            Ok(LiveDeliveryOutcome::NoSubscriber) => ActiveStep::Done { outcome: Ok(false) },
            Ok(LiveDeliveryOutcome::Delivered) => if wait_for_release {
                ActiveStep::AwaitRelease { remote: true }
            } else {
                ActiveStep::Done { outcome: Ok(true) }
            },
        },
        (ActiveStep::AwaitRelease { remote }, ActiveReply::Released(result)) => match result {
            Err(error) => ActiveStep::Done { outcome: Err(Fault::Store(error)) },
            Ok(released) => if released {
                ActiveStep::Done { outcome: Ok(true) }
            } else {
                ActiveStep::PublishTimeout { operation: release_operation(remote) }
            },
        },
        (ActiveStep::PublishTimeout { .. }, _) => ActiveStep::Done { outcome: Ok(false) },
        _ => step,
    }
}

/// Whether a reply is one that the operation of a step gives.
pub fn active_expects(step: &ActiveStep, reply: &ActiveReply) -> (r: bool)
    ensures
        r == active_answers(*step, *reply),
{
    match (step, reply) {
        (ActiveStep::CancelAndWait, ActiveReply::Accepted(_)) => true,
        (ActiveStep::Cancel, ActiveReply::Accepted(_)) => true,
        (ActiveStep::Deliver { .. }, ActiveReply::Delivered(_)) => true,
        (ActiveStep::AwaitRelease { .. }, ActiveReply::Released(_)) => true,
        (ActiveStep::PublishTimeout { .. }, ActiveReply::Performed) => true,
        _ => false,
    }
}

/// The first step in cancelling the active dispatch of a thread.
pub fn cancel_active_dispatch(wait_for_release: bool) -> (r: ActiveStep)
    ensures
        r == first_active_step(wait_for_release),
{
    if wait_for_release {
        ActiveStep::CancelAndWait
    } else {
        ActiveStep::Cancel
    }
}

/// The step that a reply leads to in cancelling the active dispatch of a thread.
pub fn advance_active(
    active: &RunDispatch,
    wait_for_release: bool,
    step: ActiveStep,
    reply: ActiveReply,
) -> (r: ActiveStep)
    requires
        active_answers(step, reply),
    ensures
        r == next_active_step(*active, wait_for_release, step, reply),
{
    match (step, reply) {
        (ActiveStep::CancelAndWait, ActiveReply::Accepted(accepted)) => if accepted {
            ActiveStep::AwaitRelease { remote: false }
        } else {
            ActiveStep::Deliver { target: live_target_for_dispatch(active) }
        },
        (ActiveStep::Cancel, ActiveReply::Accepted(accepted)) => if accepted {
            ActiveStep::Done { outcome: Ok(true) }
        } else {
            ActiveStep::Deliver { target: live_target_for_dispatch(active) }
        },
        (ActiveStep::Deliver { .. }, ActiveReply::Delivered(result)) => match result {
            Err(error) => ActiveStep::Done { outcome: Err(Fault::Store(error)) },
            Ok(LiveDeliveryOutcome::NoSubscriber) => ActiveStep::Done { outcome: Ok(false) },
            Ok(LiveDeliveryOutcome::Delivered) => if wait_for_release {
                ActiveStep::AwaitRelease { remote: true }
            } else {
                ActiveStep::Done { outcome: Ok(true) }
            },
        },
        (ActiveStep::AwaitRelease { remote }, ActiveReply::Released(result)) => match result {
            Err(error) => ActiveStep::Done { outcome: Err(Fault::Store(error)) },
            Ok(released) => if released {
                ActiveStep::Done { outcome: Ok(true) }
            } else if remote {
                ActiveStep::PublishTimeout { operation: "remote_cancel_release_wait" }
            } else {
                ActiveStep::PublishTimeout { operation: "local_cancel_release_wait" }
            },
        },
        (ActiveStep::PublishTimeout { .. }, _) => ActiveStep::Done { outcome: Ok(false) },
        (step, _) => step,
    }
}

/// With a wait for the release, the active run counts as cancelled only once its
/// dispatch was seen released.
pub proof fn lemma_waiting_cancel_sees_the_release(
    active: RunDispatch,
    step: ActiveStep,
    reply: ActiveReply,
)
    requires
        active_answers(step, reply),
        step !is Cancel,
        next_active_step(active, true, step, reply) == (ActiveStep::Done { outcome: Ok(true) }),
    ensures
        step is AwaitRelease,
        reply == ActiveReply::Released(Ok(true)),
{
}

/// The operation that is due after the store interrupted a thread.
#[derive(Debug, PartialEq)]
pub enum AftermathStep {
    /// Mark the run of the superseded dispatch `at`.
    MarkSuperseded { at: usize },
    /// Cancel the active dispatch.
    CancelActive { cancel: ActiveStep },
    /// Publish that the run of the active dispatch was interrupted.
    PublishInterrupted,
    /// The thread is settled: whether it is free, for there was no active run or
    /// it was cancelled.
    Done { outcome: Result<bool, Fault> },
}

/// The reply to the operation of a step.
#[derive(Debug, PartialEq)]
pub enum AftermathReply {
    Performed,
    Active(ActiveReply),
}

/// What follows when the store has interrupted a thread.
#[derive(Debug, PartialEq)]
pub struct Aftermath {
    pub wait_for_release: bool,
    pub details: MailboxInterruptDetails,
    pub step: AftermathStep,
}

/// Whether an event is the one that the due step of an aftermath publishes, where it
/// publishes one. `wait_ms` is how long a cancel waits for the release.
pub open spec fn is_aftermath_event(
    aftermath: Aftermath,
    wait_ms: u64,
    event: Option<EventDraft>,
) -> bool {
    match (aftermath.step, aftermath.details.active_dispatch) {
        (AftermathStep::PublishInterrupted, Some(active)) => event matches Some(draft)
            && is_dispatch_event(draft, "RunInterrupted", active, None, None, None),
        (
            AftermathStep::CancelActive { cancel: ActiveStep::PublishTimeout { operation } },
            Some(active),
        ) => event matches Some(draft) && is_dispatch_event(
            draft,
            "MailboxTimeout",
            active,
            Some(operation),
            None,
            Some(wait_ms),
        ),
        _ => event is None,
    }
}

impl Aftermath {
    /// The event that the due step publishes, where it publishes one. `wait_ms` is how
    /// long a cancel waits for the release.
    pub fn event(&self, wait_ms: u64) -> (r: Option<EventDraft>)
        ensures
            is_aftermath_event(*self, wait_ms, r),
    {
        match (&self.step, &self.details.active_dispatch) {
            (AftermathStep::PublishInterrupted, Some(active)) => Some(
                record_mailbox_dispatch_event("RunInterrupted", active),
            ),
            (
                AftermathStep::CancelActive { cancel: ActiveStep::PublishTimeout { operation } },
                Some(active),
            ) => Some(record_mailbox_timeout(active, *operation, wait_ms)),
            _ => None,
        }
    }
}

/// The step before the superseded dispatch `at` is marked, or behind the last.
pub open spec fn aftermath_at(
    details: MailboxInterruptDetails,
    wait_for_release: bool,
    at: int,
) -> AftermathStep {
    if at < details.superseded_dispatches@.len() {
        AftermathStep::MarkSuperseded { at: at as usize }
    } else if details.active_dispatch is Some {
        AftermathStep::CancelActive { cancel: first_active_step(wait_for_release) }
    } else {
        AftermathStep::Done { outcome: Ok(true) }
    }
}

/// Whether a reply is one that the operation of a step gives.
pub open spec fn aftermath_answers(aftermath: Aftermath, reply: AftermathReply) -> bool {
    match aftermath.step {
        AftermathStep::MarkSuperseded { at } => reply is Performed && at
            < aftermath.details.superseded_dispatches@.len(),
        AftermathStep::CancelActive { cancel } => aftermath.details.active_dispatch is Some && (
        reply matches AftermathReply::Active(inner) && active_answers(cancel, inner)),
        AftermathStep::PublishInterrupted => reply is Performed,
        AftermathStep::Done { .. } => false,
    }
}

/// The step of an aftermath at a step of the cancellation of the active dispatch.
pub open spec fn aftermath_on_cancel(cancel: ActiveStep) -> AftermathStep {
    match cancel {
        ActiveStep::Done { outcome: Ok(cancelled) } => if cancelled {
            AftermathStep::PublishInterrupted
        } else {
            AftermathStep::Done { outcome: Ok(false) }
        },
        ActiveStep::Done { outcome: Err(fault) } => AftermathStep::Done { outcome: Err(fault) },
        _ => AftermathStep::CancelActive { cancel },
    }
}

/// The step that a reply leads to.
pub open spec fn next_aftermath_step(aftermath: Aftermath, reply: AftermathReply) -> AftermathStep {
    let details = aftermath.details;
    let wait = aftermath.wait_for_release;
    match (aftermath.step, reply) {
        (AftermathStep::MarkSuperseded { at }, _) => aftermath_at(details, wait, at + 1),
        (AftermathStep::CancelActive { cancel }, AftermathReply::Active(inner)) =>
        aftermath_on_cancel(next_active_step(details.active_dispatch->0, wait, cancel, inner)),
        (AftermathStep::PublishInterrupted, _) => AftermathStep::Done { outcome: Ok(true) },
        _ => aftermath.step,
    }
}

impl Aftermath {
    /// Begin with what the store did.
    pub fn of(details: MailboxInterruptDetails, wait_for_release: bool) -> (r: Aftermath)
        ensures
            r == (Aftermath {
                wait_for_release,
                details,
                step: aftermath_at(details, wait_for_release, 0),
            }),
    {
        let step = if details.superseded_dispatches.len() > 0 {
            AftermathStep::MarkSuperseded { at: 0 }
        } else if details.active_dispatch.is_some() {
            AftermathStep::CancelActive { cancel: cancel_active_dispatch(wait_for_release) }
        } else {
            AftermathStep::Done { outcome: Ok(true) }
        };
        Aftermath { wait_for_release, details, step }
    }

    /// Whether a reply is one that the operation of the due step gives.
    pub fn expects(&self, reply: &AftermathReply) -> (r: bool)
        ensures
            r == aftermath_answers(*self, *reply),
    {
        match (&self.step, reply) {
            (AftermathStep::MarkSuperseded { at }, AftermathReply::Performed) => *at
                < self.details.superseded_dispatches.len(),
            (AftermathStep::CancelActive { cancel }, AftermathReply::Active(inner)) =>
            self.details.active_dispatch.is_some() && active_expects(cancel, inner),
            (AftermathStep::PublishInterrupted, AftermathReply::Performed) => true,
            _ => false,
        }
    }

    /// Take the reply to the operation that was due.
    pub fn advance(self, reply: AftermathReply) -> (r: Aftermath)
        requires
            aftermath_answers(self, reply),
        ensures
            r.wait_for_release == self.wait_for_release,
            r.details == self.details,
            r.step == next_aftermath_step(self, reply),
    {
        let wait_for_release = self.wait_for_release;
        let details = self.details;
        let step = match (self.step, reply) {
            (AftermathStep::MarkSuperseded { at }, _) => {
                let count: usize = details.superseded_dispatches.len();
                if at + 1 < count {
                    AftermathStep::MarkSuperseded { at: at + 1 }
                } else if details.active_dispatch.is_some() {
                    AftermathStep::CancelActive { cancel: cancel_active_dispatch(wait_for_release) }
                } else {
                    AftermathStep::Done { outcome: Ok(true) }
                }
            },
            (AftermathStep::CancelActive { cancel }, AftermathReply::Active(inner)) => {
                match &details.active_dispatch {
                    Some(active) => match advance_active(active, wait_for_release, cancel, inner) {
                        ActiveStep::Done { outcome: Ok(cancelled) } => if cancelled {
                            AftermathStep::PublishInterrupted
                        } else {
                            AftermathStep::Done { outcome: Ok(false) }
                        },
                        ActiveStep::Done { outcome: Err(fault) } => AftermathStep::Done {
                            outcome: Err(fault),
                        },
                        cancel => AftermathStep::CancelActive { cancel },
                    },
                    None => AftermathStep::CancelActive { cancel },
                }
            },
            (AftermathStep::PublishInterrupted, _) => AftermathStep::Done { outcome: Ok(true) },
            (step, _) => step,
        };
        Aftermath { wait_for_release, details, step }
    }
}

/// The operation that is due in interrupting a thread.
#[derive(Debug, PartialEq)]
pub enum InterruptStep {
    /// Interrupt the thread in the store: the queued dispatches are superseded.
    Interrupt,
    /// Settle the thread.
    Settle { aftermath: Aftermath },
    /// The thread is interrupted.
    Done { outcome: Result<MailboxInterruptDetails, Fault> },
}

/// The reply to the operation of a step.
#[derive(Debug, PartialEq)]
pub enum InterruptReply {
    Interrupted(Result<MailboxInterruptDetails, StorageError>),
    Settled(AftermathReply),
}

/// Whether a reply is one that the operation of a step gives.
pub open spec fn interrupt_answers(step: InterruptStep, reply: InterruptReply) -> bool {
    match step {
        InterruptStep::Interrupt => reply is Interrupted,
        InterruptStep::Settle { aftermath } => reply matches InterruptReply::Settled(inner)
            && aftermath_answers(aftermath, inner),
        InterruptStep::Done { .. } => false,
    }
}

/// The step of an interrupt at a step of its aftermath. That a run was not
/// cancelled does not make the interrupt fail.
pub open spec fn interrupt_at(aftermath: Aftermath) -> InterruptStep {
    match aftermath.step {
        AftermathStep::Done { outcome: Ok(_) } => InterruptStep::Done {
            outcome: Ok(aftermath.details),
        },
        AftermathStep::Done { outcome: Err(fault) } => InterruptStep::Done { outcome: Err(fault) },
        _ => InterruptStep::Settle { aftermath },
    }
}

/// The step that a reply leads to.
pub open spec fn next_interrupt_step(step: InterruptStep, reply: InterruptReply) -> InterruptStep {
    match (step, reply) {
        (InterruptStep::Interrupt, InterruptReply::Interrupted(result)) => match result {
            Err(error) => InterruptStep::Done { outcome: Err(Fault::Store(error)) },
            Ok(details) => interrupt_at(
                Aftermath {
                    wait_for_release: false,
                    details,
                    step: aftermath_at(details, false, 0),
                },
            ),
        },
        (InterruptStep::Settle { aftermath }, InterruptReply::Settled(inner)) => interrupt_at(
            Aftermath { step: next_aftermath_step(aftermath, inner), ..aftermath },
        ),
        _ => step,
    }
}

/// An interrupt of a thread.
#[derive(Debug, PartialEq)]
pub struct ThreadInterrupt {
    pub thread_id: String,
    pub step: InterruptStep,
}

impl ThreadInterrupt {
    /// Begin to interrupt a thread: supersede what is queued, and cancel the
    /// active run.
    pub fn interrupt_detailed(thread_id: String) -> (r: ThreadInterrupt)
        ensures
            r == (ThreadInterrupt { thread_id, step: InterruptStep::Interrupt }),
    {
        ThreadInterrupt { thread_id, step: InterruptStep::Interrupt }
    }

    /// Whether a reply is one that the operation of the due step gives.
    pub fn expects(&self, reply: &InterruptReply) -> (r: bool)
        ensures
            r == interrupt_answers(self.step, *reply),
    {
        match (&self.step, reply) {
            (InterruptStep::Interrupt, InterruptReply::Interrupted(_)) => true,
            (InterruptStep::Settle { aftermath }, InterruptReply::Settled(inner)) =>
            aftermath.expects(inner),
            _ => false,
        }
    }

    /// Take the reply to the operation that was due.
    pub fn advance(self, reply: InterruptReply) -> (r: ThreadInterrupt)
        requires
            interrupt_answers(self.step, reply),
        ensures
            r.thread_id == self.thread_id,
            r.step == next_interrupt_step(self.step, reply),
    {
        let step = match (self.step, reply) {
            (InterruptStep::Interrupt, InterruptReply::Interrupted(result)) => match result {
                Err(error) => InterruptStep::Done { outcome: Err(Fault::Store(error)) },
                Ok(details) => interrupt_step(Aftermath::of(details, false)),
            },
            (InterruptStep::Settle { aftermath }, InterruptReply::Settled(inner)) => interrupt_step(
                aftermath.advance(inner),
            ),
            (step, _) => step,
        };
        ThreadInterrupt { thread_id: self.thread_id, step }
    }
}

fn interrupt_step(aftermath: Aftermath) -> (r: InterruptStep)
    ensures
        r == interrupt_at(aftermath),
{
    match aftermath.step {
        AftermathStep::Done { outcome: Ok(_) } => InterruptStep::Done {
            outcome: Ok(aftermath.details),
        },
        AftermathStep::Done { outcome: Err(fault) } => InterruptStep::Done { outcome: Err(fault) },
        _ => InterruptStep::Settle { aftermath },
    }
}

/// A settling: the steps that were due and the replies to them, from the first.
pub open spec fn is_settling(states: Seq<Aftermath>, replies: Seq<AftermathReply>) -> bool {
    &&& states.len() == replies.len() + 1
    &&& states[0].step == aftermath_at(states[0].details, states[0].wait_for_release, 0)
    &&& forall|i: int|
        #![trigger replies[i]]
        0 <= i < replies.len() ==> aftermath_answers(states[i], replies[i]) && states[i + 1] == (
        Aftermath { step: next_aftermath_step(states[i], replies[i]), ..states[i] })
}

/// Every superseded dispatch is marked, each once and in order, before the active
/// dispatch is cancelled or the thread is settled.
pub proof fn lemma_superseded_are_marked_first(
    states: Seq<Aftermath>,
    replies: Seq<AftermathReply>,
    at: int,
)
    requires
        is_settling(states, replies),
        0 <= at < states.len(),
    ensures
        states[at].details == states[0].details,
        states[at].wait_for_release == states[0].wait_for_release,
        at < states[0].details.superseded_dispatches@.len() ==> states[at].step == (
        AftermathStep::MarkSuperseded { at: at as usize }),
        at >= states[0].details.superseded_dispatches@.len() ==> states[at].step
            !is MarkSuperseded,
    decreases at,
{
    if at > 0 {
        lemma_superseded_are_marked_first(states, replies, at - 1);
        assert(aftermath_answers(states[at - 1], replies[at - 1]));
        let count: usize = states[0].details.superseded_dispatches.len();
        assert(count == states[0].details.superseded_dispatches@.len());
    } else {
        let count: usize = states[0].details.superseded_dispatches.len();
        assert(count == states[0].details.superseded_dispatches@.len());
    }
}

/// A routing by an id: the steps that were due and the replies to them.
pub open spec fn is_routing(steps: Seq<RouteStep>, replies: Seq<RouteReply>) -> bool {
    &&& steps.len() == replies.len() + 1
    &&& steps[0] is LoadDispatch
    &&& forall|i: int|
        #![trigger replies[i]]
        0 <= i < replies.len() ==> route_answers(steps[i], replies[i]) && steps[i + 1]
            == next_route_step(steps[i], replies[i])
}

/// Whether a target is the claimed dispatch that a lookup found.
pub open spec fn is_the_dispatch(target: LiveRunTarget, dispatch: RunDispatch) -> bool {
    &&& dispatch.status == RunDispatchStatus::Claimed
    &&& target.thread_id == dispatch.thread_id
    &&& target.run_id == dispatch.run_id
    &&& target.dispatch_id == Some(dispatch.dispatch_id)
}

/// Whether a target is the live run that a lookup found.
pub open spec fn is_the_run(target: LiveRunTarget, run: RunRecord) -> bool {
    &&& run.status == RunStatus::Running || run.status == RunStatus::Waiting
    &&& target.thread_id == run.thread_id
    &&& target.run_id == run.run_id
    &&& target.dispatch_id == run.dispatch_id
}

/// Whether the lookups of a routing found a target: a claimed dispatch under the id, or
/// else a live run under it, or else, where no run has the id, a live run that is the
/// latest of the thread of that id.
pub open spec fn lookups_find(replies: Seq<RouteReply>, target: LiveRunTarget) -> bool {
    ||| replies.len() >= 1 && (replies[0] matches RouteReply::Dispatch(Ok(Some(dispatch)))
        && is_the_dispatch(target, dispatch))
    ||| replies.len() >= 2 && no_claimed_dispatch(replies[0]) && (
    replies[1] matches RouteReply::Run(Ok(Some(run))) && is_the_run(target, run))
    ||| replies.len() >= 3 && no_claimed_dispatch(replies[0]) && replies[1] == RouteReply::Run(
        Ok(None),
    ) && (replies[2] matches RouteReply::Run(Ok(Some(run))) && is_the_run(target, run))
}

/// Whether a lookup of a dispatch found none that is claimed.
pub open spec fn no_claimed_dispatch(reply: RouteReply) -> bool {
    reply matches RouteReply::Dispatch(Ok(found)) && (found matches Some(dispatch)
        ==> dispatch.status != RunDispatchStatus::Claimed)
}

/// Whether a lookup of a run found none that is live.
pub open spec fn no_live_run(reply: RouteReply) -> bool {
    reply matches RouteReply::Run(Ok(found)) && (found matches Some(run) ==> run.status
        != RunStatus::Running && run.status != RunStatus::Waiting)
}

/// Whether the lookups of a routing were made and found nothing to reach.
pub open spec fn lookups_find_nothing(replies: Seq<RouteReply>) -> bool {
    &&& replies.len() >= 2
    &&& no_claimed_dispatch(replies[0])
    &&& no_live_run(replies[1])
    &&& replies[1] == RouteReply::Run(Ok(None)) ==> replies.len() >= 3 && no_live_run(replies[2])
}

/// A routing takes at most four operations. It reaches a run exactly where the lookups
/// found one and a subscriber took the command; it reaches none only where the lookups
/// were made and found nothing, or what they found has no subscriber; and it fails only
/// with the error of the store.
pub proof fn lemma_routing_reaches_what_the_id_names(
    steps: Seq<RouteStep>,
    replies: Seq<RouteReply>,
)
    requires
        is_routing(steps, replies),
    ensures
        replies.len() <= 4,
        forall|i: int|
            0 <= i < steps.len() ==> ((#[trigger] steps[i]) matches RouteStep::Deliver { target }
                ==> lookups_find(replies.take(i), target)),
        steps.last() matches RouteStep::Done { outcome } ==> replies.len() > 0 && match outcome {
            Ok(Some(target)) => lookups_find(replies, target) && replies.last()
                == RouteReply::Delivered(Ok(LiveDeliveryOutcome::Delivered)),
            Ok(None) => lookups_find_nothing(replies) || (replies.last() == RouteReply::Delivered(
                Ok(LiveDeliveryOutcome::NoSubscriber),
            ) && (steps[steps.len() - 2] matches RouteStep::Deliver { target } && lookups_find(
                replies,
                target,
            ))),
            Err(fault) => exists|error: StorageError|
                fault == Fault::Store(error) && (replies.last() == RouteReply::Dispatch(
                    Err(error),
                ) || replies.last() == RouteReply::Run(Err(error)) || replies.last()
                    == RouteReply::Delivered(Err(error))),
        },
{
    let n = replies.len();
    if n > 0 {
        assert(route_answers(steps[0], replies[0]));
    }
    if n > 1 {
        assert(route_answers(steps[1], replies[1]));
    }
    if n > 2 {
        assert(route_answers(steps[2], replies[2]));
    }
    if n > 3 {
        assert(route_answers(steps[3], replies[3]));
    }
    if n > 4 {
        assert(route_answers(steps[4], replies[4]));
    }
    if let RouteStep::Done { outcome: Err(fault) } = steps.last() {
        let error = fault->Store_0;
        assert(fault == Fault::Store(error));
    }
}

/// A cancellation by an id: the steps that were due and the replies to them.
pub open spec fn is_cancellation(steps: Seq<CancelStep>, replies: Seq<CancelReply>) -> bool {
    &&& steps.len() == replies.len() + 1
    &&& steps[0] is StoreCancel
    &&& forall|i: int|
        #![trigger replies[i]]
        0 <= i < replies.len() ==> cancel_answers(steps[i], replies[i]) && steps[i + 1]
            == next_cancel_step(steps[i], replies[i])
}

/// What the replies of a cancellation say of its lookups.
pub open spec fn routed(replies: Seq<CancelReply>) -> Seq<RouteReply> {
    Seq::new(
        (replies.len() - 2) as nat,
        |i: int| replies[i + 2]->Routed_0,
    )
}

/// Whether neither the store nor this process had the run to cancel.
pub open spec fn is_not_at_hand(steps: Seq<CancelStep>, replies: Seq<CancelReply>) -> bool {
    &&& replies.len() >= 3
    &&& replies[0] == CancelReply::Cancelled(Ok(None))
    &&& steps[1] is RuntimeCancel
    &&& replies[1] == CancelReply::Accepted(false)
    &&& steps[2] == (CancelStep::Route { route: RouteStep::LoadDispatch })
    &&& forall|i: int| 2 <= i < replies.len() ==> (#[trigger] replies[i]) is Routed
}

/// A cancellation takes at most six operations. It says that nothing was cancelled only
/// after the lookups by the id: the store had no queued dispatch, this process refused,
/// and then the lookups found no claimed dispatch and no live run, or what they found had
/// no subscriber for the command. It says that something was cancelled only where the
/// store cancelled a dispatch, whose run was then marked, or this process took the
/// command, or the subscriber of what the lookups found did. It fails only with the
/// error of the store.
pub proof fn lemma_cancellation_is_thorough(steps: Seq<CancelStep>, replies: Seq<CancelReply>)
    requires
        is_cancellation(steps, replies),
    ensures
        replies.len() <= 6,
        steps.last() == (CancelStep::Done { outcome: Ok(false) }) ==> is_not_at_hand(steps, replies)
            && (lookups_find_nothing(routed(replies)) || (routed(replies).last()
            == RouteReply::Delivered(Ok(LiveDeliveryOutcome::NoSubscriber)) && (
        steps[steps.len() - 2] matches CancelStep::Route { route: RouteStep::Deliver { target } }
            && lookups_find(routed(replies), target)))),
        steps.last() == (CancelStep::Done { outcome: Ok(true) }) ==> {
            ||| replies.len() == 2 && (replies[0] matches CancelReply::Cancelled(Ok(Some(dispatch)))
                && steps[1] == (CancelStep::Mark { dispatch }))
            ||| replies.len() == 2 && replies[0] == CancelReply::Cancelled(Ok(None)) && steps[1]
                is RuntimeCancel && replies[1] == CancelReply::Accepted(true)
            ||| is_not_at_hand(steps, replies) && routed(replies).last() == RouteReply::Delivered(
                Ok(LiveDeliveryOutcome::Delivered),
            ) && (steps[steps.len() - 2] matches CancelStep::Route {
                route: RouteStep::Deliver { target },
            } && lookups_find(routed(replies), target))
        },
        steps.last() matches CancelStep::Done { outcome: Err(fault) } ==> exists|error: StorageError|
            fault == Fault::Store(error) && {
                ||| replies.len() == 1 && replies[0] == CancelReply::Cancelled(Err(error))
                ||| is_not_at_hand(steps, replies) && (replies.last() == CancelReply::Routed(
                    RouteReply::Dispatch(Err(error)),
                ) || replies.last() == CancelReply::Routed(RouteReply::Run(Err(error)))
                    || replies.last() == CancelReply::Routed(RouteReply::Delivered(Err(error))))
            },
{
    let n = replies.len();
    if n > 0 {
        assert(cancel_answers(steps[0], replies[0]));
    }
    if n > 1 {
        assert(cancel_answers(steps[1], replies[1]));
    }
    if n > 2 {
        assert(cancel_answers(steps[2], replies[2]));
    }
    if n > 3 {
        assert(cancel_answers(steps[3], replies[3]));
    }
    if n > 4 {
        assert(cancel_answers(steps[4], replies[4]));
    }
    if n > 5 {
        assert(cancel_answers(steps[5], replies[5]));
    }
    if n > 6 {
        assert(cancel_answers(steps[6], replies[6]));
    }
    if n >= 3 && steps[1] is RuntimeCancel {
        assert forall|i: int| 2 <= i < n implies (#[trigger] replies[i]) is Routed by {
            assert(cancel_answers(steps[i], replies[i]));
            assert(i == 2 || i == 3 || i == 4 || i == 5);
        }
        assert(routed(replies)[0] == replies[2]->Routed_0);
    }
    if let CancelStep::Done { outcome: Err(fault) } = steps.last() {
        let error = fault->Store_0;
        assert(fault == Fault::Store(error));
    }
}

/// The cancellation of an active dispatch: the steps that were due and the replies.
pub open spec fn is_active_cancel(
    active: RunDispatch,
    wait_for_release: bool,
    steps: Seq<ActiveStep>,
    replies: Seq<ActiveReply>,
) -> bool {
    &&& steps.len() == replies.len() + 1
    &&& steps[0] == first_active_step(wait_for_release)
    &&& forall|i: int|
        #![trigger replies[i]]
        0 <= i < replies.len() ==> active_answers(steps[i], replies[i]) && steps[i + 1]
            == next_active_step(active, wait_for_release, steps[i], replies[i])
}

/// The active run is cancelled in this process where that takes the command, and else
/// the command goes to the dispatch's own run. Without a wait it counts as cancelled
/// exactly where one of them took the command. With a wait it also has to be seen
/// released, and a wait that timed out is told under the name of the side that took the
/// command.
pub proof fn lemma_active_run_is_cancelled(
    active: RunDispatch,
    wait_for_release: bool,
    steps: Seq<ActiveStep>,
    replies: Seq<ActiveReply>,
)
    requires
        is_active_cancel(active, wait_for_release, steps, replies),
    ensures
        replies.len() <= 4,
        forall|i: int|
            0 <= i < steps.len() ==> ((#[trigger] steps[i]) matches ActiveStep::Deliver { target }
                ==> i == 1 && replies[0] == ActiveReply::Accepted(false) && target.thread_id
                == active.thread_id && target.run_id == active.run_id && target.dispatch_id == Some(
                active.dispatch_id,
            )),
        steps.last() matches ActiveStep::Done { outcome } ==> {
            let local = replies[0] == ActiveReply::Accepted(true);
            let at: int = if local {
                1
            } else {
                2
            };
            &&& replies.len() >= at
            &&& !local ==> replies[0] == ActiveReply::Accepted(false) && steps[1] is Deliver
            &&& if !local && replies[1] == ActiveReply::Delivered(
                Ok(LiveDeliveryOutcome::NoSubscriber),
            ) {
                outcome == Ok::<bool, Fault>(false)
            } else if !local && replies[1] is Delivered && replies[1]->Delivered_0 is Err {
                outcome == Err::<bool, Fault>(Fault::Store(replies[1]->Delivered_0->Err_0))
            } else if !wait_for_release {
                outcome == Ok::<bool, Fault>(true)
            } else {
                &&& steps[at] == (ActiveStep::AwaitRelease { remote: !local })
                &&& replies[at] matches ActiveReply::Released(released) && match released {
                    Err(error) => outcome == Err::<bool, Fault>(Fault::Store(error)),
                    Ok(true) => outcome == Ok::<bool, Fault>(true),
                    Ok(false) => outcome == Ok::<bool, Fault>(false) && (
                    steps[at + 1] matches ActiveStep::PublishTimeout { operation } && operation@
                        == (if local {
                        "local_cancel_release_wait"@
                    } else {
                        "remote_cancel_release_wait"@
                    })),
                }
            }
        },
{
    let n = replies.len();
    if n > 0 {
        assert(active_answers(steps[0], replies[0]));
    }
    if n > 1 {
        assert(active_answers(steps[1], replies[1]));
    }
    if n > 2 {
        assert(active_answers(steps[2], replies[2]));
    }
    if n > 3 {
        assert(active_answers(steps[3], replies[3]));
    }
    if n > 4 {
        assert(active_answers(steps[4], replies[4]));
    }
}

proof fn lemma_settling_goes_on(states: Seq<Aftermath>, replies: Seq<AftermathReply>, at: int)
    requires
        is_settling(states, replies),
        0 <= at < states.len(),
    ensures
        states[at].details == states[0].details,
        states[at].wait_for_release == states[0].wait_for_release,
        at < replies.len() ==> aftermath_answers(states[at], replies[at]) && states[at + 1].step
            == next_aftermath_step(states[at], replies[at]),
{
    lemma_superseded_are_marked_first(states, replies, at);
    if at < replies.len() {
        assert(aftermath_answers(states[at], replies[at]));
    }
}

/// A settling ends after the superseded dispatches and at most five operations more. A
/// thread without an active dispatch is free. One with an active dispatch is free
/// exactly where that was cancelled, which is then told; where it was not, nothing is
/// told of it; and a store that fails makes the settling fail.
pub proof fn lemma_settling_tells_whether_the_thread_is_free(
    states: Seq<Aftermath>,
    replies: Seq<AftermathReply>,
)
    requires
        is_settling(states, replies),
    ensures
        replies.len() <= states[0].details.superseded_dispatches@.len() + 5,
        states.last().step matches AftermathStep::Done { outcome } ==> {
            let first = states[0].details.superseded_dispatches@.len() as int;
            &&& replies.len() >= first
            &&& states[0].details.active_dispatch is None ==> replies.len() == first && outcome
                == Ok::<bool, Fault>(true)
            &&& states[0].details.active_dispatch is Some ==> replies.len() > first && match outcome {
                Ok(true) => states[states.len() - 2].step is PublishInterrupted && replies.len()
                    >= first + 2 && ({
                    let last = replies[replies.len() - 2];
                    if states[0].wait_for_release {
                        last == AftermathReply::Active(ActiveReply::Released(Ok(true)))
                    } else {
                        last == AftermathReply::Active(ActiveReply::Accepted(true)) || last
                            == AftermathReply::Active(
                            ActiveReply::Delivered(Ok(LiveDeliveryOutcome::Delivered)),
                        )
                    }
                }),
                Ok(false) => replies.last() == AftermathReply::Active(
                    ActiveReply::Delivered(Ok(LiveDeliveryOutcome::NoSubscriber)),
                ) || (replies.last() == AftermathReply::Active(ActiveReply::Performed)
                    && replies[replies.len() - 2] == AftermathReply::Active(
                    ActiveReply::Released(Ok(false)),
                )),
                Err(fault) => exists|error: StorageError|
                    fault == Fault::Store(error) && (replies.last() == AftermathReply::Active(
                        ActiveReply::Delivered(Err(error)),
                    ) || replies.last() == AftermathReply::Active(
                        ActiveReply::Released(Err(error)),
                    )),
            }
        },
{
    let first = states[0].details.superseded_dispatches@.len() as int;
    let n = replies.len() as int;
    let count: usize = states[0].details.superseded_dispatches.len();
    assert(count == first);
    if n >= first {
        lemma_superseded_are_marked_first(states, replies, first);
        if first > 0 {
            lemma_superseded_are_marked_first(states, replies, first - 1);
            lemma_settling_goes_on(states, replies, first - 1);
        }
        assert(states[first].step == aftermath_at(
            states[0].details,
            states[0].wait_for_release,
            first,
        ));
        lemma_settling_goes_on(states, replies, first);
        if n > first {
            lemma_settling_goes_on(states, replies, first + 1);
        }
        if n > first + 1 {
            lemma_settling_goes_on(states, replies, first + 2);
        }
        if n > first + 2 {
            lemma_settling_goes_on(states, replies, first + 3);
        }
        if n > first + 3 {
            lemma_settling_goes_on(states, replies, first + 4);
        }
        if n > first + 4 {
            lemma_settling_goes_on(states, replies, first + 5);
        }
        if let AftermathStep::Done { outcome: Err(fault) } = states.last().step {
            let error = fault->Store_0;
            assert(fault == Fault::Store(error));
        }
    } else {
        lemma_superseded_are_marked_first(states, replies, n);
    }
}

/// The interrupt of a thread: the steps that were due and the replies to them.
pub open spec fn is_interrupt(steps: Seq<InterruptStep>, replies: Seq<InterruptReply>) -> bool {
    &&& steps.len() == replies.len() + 1
    &&& steps[0] is Interrupt
    &&& forall|i: int|
        #![trigger replies[i]]
        0 <= i < replies.len() ==> interrupt_answers(steps[i], replies[i]) && steps[i + 1]
            == next_interrupt_step(steps[i], replies[i])
}

proof fn lemma_interrupt_keeps_details(
    steps: Seq<InterruptStep>,
    replies: Seq<InterruptReply>,
    details: MailboxInterruptDetails,
    at: int,
)
    requires
        is_interrupt(steps, replies),
        replies.len() > 0,
        replies[0] == InterruptReply::Interrupted(Ok(details)),
        1 <= at < steps.len(),
    ensures
        match steps[at] {
            InterruptStep::Interrupt => false,
            InterruptStep::Settle { aftermath } => aftermath.details == details
                && !aftermath.wait_for_release && (at - 1 < details.superseded_dispatches@.len()
                ==> aftermath.step == (AftermathStep::MarkSuperseded { at: (at - 1) as usize })) && (
            at - 1 >= details.superseded_dispatches@.len() ==> aftermath.step !is MarkSuperseded
                && details.active_dispatch is Some) && !(aftermath.step is Done),
            InterruptStep::Done { outcome: Ok(result) } => result == details && at - 1
                >= details.superseded_dispatches@.len(),
            InterruptStep::Done { outcome: Err(fault) } => at - 1
                >= details.superseded_dispatches@.len() && exists|error: StorageError|
                fault == Fault::Store(error),
        },
    decreases at,
{
    let count: usize = details.superseded_dispatches.len();
    assert(count == details.superseded_dispatches@.len());
    assert(interrupt_answers(steps[at - 1], replies[at - 1]));
    if at > 1 {
        lemma_interrupt_keeps_details(steps, replies, details, at - 1);
        if let InterruptStep::Done { outcome: Err(fault) } = steps[at] {
            let error = fault->Store_0;
            assert(fault == Fault::Store(error));
        }
    }
}

/// An interrupt that the store carried out gives back what the store did, and marks each
/// superseded dispatch, once and in order, before it ends or turns to the active one. It
/// never waits for the release. One that the store refused fails with the store's error.
pub proof fn lemma_interrupt_settles_what_the_store_did(
    steps: Seq<InterruptStep>,
    replies: Seq<InterruptReply>,
    at: int,
)
    requires
        is_interrupt(steps, replies),
        1 <= at < steps.len(),
    ensures
        replies[0] matches InterruptReply::Interrupted(result) && match result {
            Err(error) => steps.len() == 2 && steps[1] == (InterruptStep::Done {
                outcome: Err(Fault::Store(error)),
            }),
            Ok(details) => {
                &&& at - 1 < details.superseded_dispatches@.len() ==> (
                steps[at] matches InterruptStep::Settle { aftermath } && aftermath.details == details
                    && aftermath.step == (AftermathStep::MarkSuperseded { at: (at - 1) as usize }))
                &&& steps[at] matches InterruptStep::Settle { aftermath } ==> aftermath.details
                    == details && !aftermath.wait_for_release
                &&& steps[at] matches InterruptStep::Done { outcome: Ok(result) } ==> result
                    == details && at - 1 >= details.superseded_dispatches@.len()
                &&& details.active_dispatch is None && at - 1
                    == details.superseded_dispatches@.len() ==> steps[at] == (InterruptStep::Done {
                    outcome: Ok(details),
                })
                &&& details.active_dispatch is Some && at - 1
                    == details.superseded_dispatches@.len() ==> (
                steps[at] matches InterruptStep::Settle { aftermath } && aftermath.step == (
                AftermathStep::CancelActive { cancel: ActiveStep::Cancel }))
            },
        },
{
    assert(interrupt_answers(steps[0], replies[0]));
    if let InterruptReply::Interrupted(Ok(details)) = replies[0] {
        let count: usize = details.superseded_dispatches.len();
        assert(count == details.superseded_dispatches@.len());
        lemma_interrupt_keeps_details(steps, replies, details, at);
        if at > 1 {
            lemma_interrupt_keeps_details(steps, replies, details, at - 1);
            assert(interrupt_answers(steps[at - 1], replies[at - 1]));
        }
    } else if steps.len() > 2 {
        assert(interrupt_answers(steps[1], replies[1]));
    }
}

/// A run is marked with the end that its dispatch had: one that was dead-lettered failed
/// with the error of the run, or else with that of the dispatch, and any other was
/// cancelled. It is done, and waits for nothing. All else of it is kept.
pub proof fn lemma_mark_tells_the_end_of_the_dispatch(
    marked: RunRecord,
    run: RunRecord,
    dispatch: RunDispatch,
    kind: TerminalKind,
    now: u64,
)
    requires
        is_marked(marked, run, dispatch, kind, now),
    ensures
        marked.status == RunStatus::Done,
        marked.waiting is None,
        marked.finished_at == Some(now),
        marked.updated_at == now,
        marked.dispatch_id == Some(dispatch.dispatch_id),
        marked.session_id == dispatch.dispatch_instance_id,
        kind is DeadLetter <==> marked.termination_reason matches Some(TerminationReason::Error(_)),
        kind is DeadLetter <==> marked.error_payload is Some,
        kind !is DeadLetter <==> marked.termination_reason == Some(TerminationReason::Cancelled),
        kind is DeadLetter ==> (marked.termination_reason matches Some(
            TerminationReason::Error(reason),
        ) && (marked.error_payload matches Some(ErrorPayload::Message { message }) && message@
            == reason@) && (dispatch.run_error matches Some(error) ==> reason@ == error@) && (
        dispatch.run_error is None && dispatch.last_error is Some ==> reason@
            == dispatch.last_error->0@) && (dispatch.run_error is None && dispatch.last_error is None
            ==> reason@ == "mailbox dispatch dead-lettered"@)),
        marked.run_id == run.run_id,
        marked.thread_id == run.thread_id,
        marked.agent_id == run.agent_id,
        marked.input == run.input,
        marked.activation == run.activation,
        marked.resolution_id == run.resolution_id,
        marked.created_at == run.created_at,
{
}

/// Only a dispatch that ended without its run has a run to mark.
pub proof fn lemma_only_ended_dispatches_are_reconciled(status: RunDispatchStatus)
    ensures
        terminal_kind(status) is None <==> status == RunDispatchStatus::Queued || status
            == RunDispatchStatus::Claimed || status == RunDispatchStatus::Acked,
        terminal_kind(status) == Some(TerminalKind::DeadLetter) <==> status
            == RunDispatchStatus::DeadLetter,
        terminal_kind(status) == Some(TerminalKind::Cancelled) <==> status
            == RunDispatchStatus::Cancelled,
        terminal_kind(status) == Some(TerminalKind::Superseded) <==> status
            == RunDispatchStatus::Superseded,
{
}

/// A marking says that the run was marked exactly after its record was written, and that
/// of a cancelled dispatch is then told. It says that there was nothing to mark only
/// where the run is gone, of another thread, or done already. It gives up after eight
/// writes that met another, and fails with the error of the store.
pub proof fn lemma_marking_tells_what_was_written(
    dispatch: RunDispatch,
    kind: TerminalKind,
    steps: Seq<MarkStep>,
    replies: Seq<MarkReply>,
)
    requires
        is_marking(dispatch, kind, steps, replies),
    ensures
        steps.last() matches MarkStep::Done { outcome } ==> replies.len() > 0 && (
        replies[0] matches MarkReply::Run { result, now } && match result {
            Err(error) => outcome == Err::<bool, Fault>(Fault::Store(error)) && replies.len() == 1,
            Ok(found) => {
                let open = found matches Some(run) && run.thread_id@ == dispatch.thread_id@
                    && run.status != RunStatus::Done;
                &&& !open ==> outcome == Ok::<bool, Fault>(false) && replies.len() == 1
                &&& open ==> match outcome {
                    Ok(marked) => {
                        let back: int = if kind is Cancelled {
                            3
                        } else {
                            2
                        };
                        &&& marked
                        &&& replies.len() > back
                        &&& kind is Cancelled ==> steps[steps.len() - 2] is PublishCancelled
                        &&& replies[replies.len() - back] == MarkReply::Committed(
                            CommitOutcome::Committed,
                        )
                        &&& steps[replies.len() - back] matches MarkStep::Commit { record, .. }
                            && is_marked(record, found->0, dispatch, kind, now)
                    },
                    Err(fault) => {
                        ||| replies.last() matches MarkReply::Messages(Err(error)) && fault
                            == Fault::Store(error)
                        ||| replies.last() matches MarkReply::Committed(
                            CommitOutcome::Failed { error },
                        ) && fault == (Fault::CommitFailed { error })
                        ||| replies.last() == MarkReply::Committed(CommitOutcome::Conflict) && fault
                            == (Fault::TerminalRetriesExhausted { thread_id: dispatch.thread_id })
                            && writes_tried(steps) == 8
                    },
                }
            },
        }),
{
    let n = replies.len() as int;
    if steps.last() is Done {
        lemma_marking_writes_only_the_end(dispatch, kind, steps, replies, n);
        assert(n > 0);
        assert(mark_answers(steps[0], replies[0]));
        assert(mark_answers(steps[n - 1], replies[n - 1]));
        assert(mark_follows(dispatch, kind, steps[n - 1], replies[n - 1], steps[n]));
        lemma_marking_writes_only_the_end(dispatch, kind, steps, replies, n - 1);
        assert(steps.take(n + 1) =~= steps);
        assert(steps.drop_last() =~= steps.take(n));
        if n > 1 {
            assert(mark_answers(steps[n - 2], replies[n - 2]));
            assert(mark_follows(dispatch, kind, steps[n - 2], replies[n - 2], steps[n - 1]));
            lemma_marking_writes_only_the_end(dispatch, kind, steps, replies, n - 2);
            assert(mark_follows(dispatch, kind, steps[0], replies[0], steps[1]));
            if n > 2 {
                assert(mark_answers(steps[n - 3], replies[n - 3]));
                assert(mark_follows(dispatch, kind, steps[n - 3], replies[n - 3], steps[n - 2]));
                lemma_marking_writes_only_the_end(dispatch, kind, steps, replies, n - 3);
            }
        }
    }
}

/// A cancellation takes up the end of its lookups at once, what follows an interrupt takes
/// up the end of a cancel, and an interrupt the end of what follows it.
pub proof fn lemma_what_has_ended_is_taken_up(
    step: CancelStep,
    reply: CancelReply,
    aftermath: Aftermath,
    settling: AftermathReply,
    interrupt: InterruptStep,
    interrupting: InterruptReply,
)
    requires
        cancel_answers(step, reply),
        aftermath_answers(aftermath, settling),
        interrupt_answers(interrupt, interrupting),
    ensures
        next_cancel_step(step, reply) matches CancelStep::Route { route } ==> !(route is Done),
        next_aftermath_step(aftermath, settling) matches AftermathStep::CancelActive { cancel }
            ==> !(cancel is Done),
        next_interrupt_step(interrupt, interrupting) matches InterruptStep::Settle { aftermath: a }
            ==> !(a.step is Done),
{
}

/// A cancellation begins with the dispatch of its id, and an interrupt with its thread.
pub proof fn lemma_cancellation_begins_with_its_id(
    id: String,
    cancellation: Cancellation,
    interrupt: ThreadInterrupt,
)
    requires
        call_ensures(Cancellation::cancel, (id,), cancellation),
        call_ensures(ThreadInterrupt::interrupt_detailed, (id,), interrupt),
    ensures
        cancellation.id == id,
        is_cancellation(seq![cancellation.step], Seq::empty()),
        interrupt.thread_id == id,
        interrupt.step is Interrupt,
{
}

/// A dispatch that ended is marked for the way in which it ended, from the record of its
/// run on; and ended dispatches are reconciled from the first page on.
pub proof fn lemma_marking_begins_with_the_record(
    dispatch: RunDispatch,
    superseded: TerminalMark,
    cancelled: TerminalMark,
    dead: TerminalMark,
    batch: usize,
    reconciliation: TerminalReconciliation,
)
    requires
        call_ensures(
            TerminalMark::mark_superseded_dispatch_run_cancelled,
            (dispatch,),
            superseded,
        ),
        call_ensures(TerminalMark::mark_cancelled_dispatch_run_cancelled, (dispatch,), cancelled),
        call_ensures(TerminalMark::mark_dead_letter_dispatch_run_error, (dispatch,), dead),
        call_ensures(
            TerminalReconciliation::reconcile_terminal_dispatches,
            (batch,),
            reconciliation,
        ),
    ensures
        superseded.kind == TerminalKind::Superseded,
        cancelled.kind == TerminalKind::Cancelled,
        dead.kind == TerminalKind::DeadLetter,
        superseded.dispatch == dispatch && superseded.step is LoadRun,
        cancelled.dispatch == dispatch && cancelled.step is LoadRun,
        dead.dispatch == dispatch && dead.step is LoadRun,
        reconciliation.batch == batch,
        reconciliation.step == (ReconcileStep::List { offset: 0 }),
{
}

/// Reconciliation goes through a page in order and lists the next one behind a full page.
/// A page that is shorter than was asked for, empty or not listed is the last.
pub proof fn lemma_full_page_is_not_the_last(batch: usize, step: ReconcileStep, reply: ReconcileReply)
    requires
        reconcile_answers(step, reply),
    ensures
        step matches ReconcileStep::List { offset } ==> match reply {
            ReconcileReply::Listed(Ok(page)) => if page@.len() == 0 {
                next_reconcile_step(batch, step, reply) is Done
            } else {
                next_reconcile_step(batch, step, reply) == (ReconcileStep::Reconcile {
                    offset,
                    page,
                    at: 0,
                })
            },
            _ => next_reconcile_step(batch, step, reply) is Done,
        },
        step matches ReconcileStep::Reconcile { offset, page, at } ==> {
            let next = next_reconcile_step(batch, step, reply);
            &&& at + 1 < page@.len() ==> (next matches ReconcileStep::Reconcile {
                offset: o,
                page: p,
                at: a,
            } && o == offset && p == page && a == at + 1)
            &&& at + 1 == page@.len() && page@.len() < batch ==> next is Done
            &&& at + 1 == page@.len() && page@.len() >= batch ==> (next matches ReconcileStep::List {
                offset: o,
            } && o == offset + page@.len())
        },
{
    if let ReconcileStep::Reconcile { offset, page, at } = step {
        let count: usize = page.len();
        assert(count == page@.len());
    }
}

} // verus!
