//! Submission of runs: in the foreground, in the background, and to a run that is
//! under way with the queue to fall back on.

use vstd::prelude::*;

use crate::activation::{resumed_run, RunActivation, RunIntent, RunMode};
use crate::delivery::PendingMessageRecord;
use crate::dispatch::{MailboxInterruptDetails, RunDispatch};
use crate::error::{Fault, StorageError};
use crate::ids::{fresh_id, is_uuid};
use crate::mailbox::cancel::{
    aftermath_answers, aftermath_at, is_aftermath_event, next_aftermath_step,
    reconcile_terminal_dispatch,
    terminal_kind, Aftermath, AftermathReply, AftermathStep, TerminalKind,
};
use crate::mailbox::config::INLINE_CLAIM_GUARD_MS;
use crate::mailbox::helpers::{
    check_run_inputs, is_thread_for, lacks_id, normalize_mailbox_run_mode, normalize_message_ids,
    with_normalized_mode,
};
use crate::mailbox::live_delivery::{
    first_live_step, live_answers, next_live_step, ActiveRun, LiveDelivery, LiveReply, LiveScope,
    LiveStep, MailboxDispatchStatus, MailboxSubmitResult,
};
use crate::mailbox::pending_delivery::{
    blocking_entry, is_preflight_queue, preflight_foreground_pending, preflight_verdict,
};
use crate::mailbox::prepare_run::{
    begins_preparation, commits_record, dispatch_id_hint_or, lemma_preparation_step,
    preparation_invariant, prepare_answers, prepare_follows, stored_run, with_dispatch_hint,
    PrepareReply, PrepareScope, PrepareStep, RunIds, RunPreparation,
};
use crate::mailbox::server_event_capture::{
    is_dispatch_event, is_resume_failed_event, record_mailbox_dispatch_event,
    record_mailbox_resume_failed, record_mailbox_submit_failed, EventDraft,
};
use crate::message::{copy_messages, copy_text, Message, MessageView};

verus! {

/// The run that a prepared request is for.
pub open spec fn prepared_run(request: RunActivation) -> Option<String> {
    match resumed_run(request) {
        Some(run_id) => Some(run_id),
        None => request.persistence.run_id_hint,
    }
}

/// Whether a dispatch is the one of a prepared request, queued at `now`.
pub open spec fn is_dispatch_of(
    dispatch: RunDispatch,
    request: RunActivation,
    thread_id: Seq<char>,
    max_attempts: u32,
    now: u64,
) -> bool {
    &&& prepared_run(request) matches Some(run_id) && dispatch == RunDispatch::fresh(
        dispatch.dispatch_id,
        dispatch.thread_id,
        run_id,
        now,
        max_attempts,
    )
    &&& dispatch.thread_id@ == thread_id
    &&& match request.persistence.dispatch_id_hint {
        Some(id) => dispatch.dispatch_id == id,
        None => is_uuid(dispatch.dispatch_id@),
    }
}

/// Build the dispatch of a prepared request. The preparation has left a run id in
/// it; without one there is nothing to dispatch.
pub fn build_dispatch(
    request: &RunActivation,
    thread_id: &str,
    max_attempts: u32,
    now: u64,
) -> (r: Result<RunDispatch, Fault>)
    ensures
        match r {
            Ok(dispatch) => is_dispatch_of(dispatch, *request, thread_id@, max_attempts, now),
            Err(fault) => prepared_run(*request) is None && fault == Fault::RunIdMissing,
        },
{
    let run_id = match request.resume_run_id() {
        Some(run_id) => run_id,
        None => match &request.persistence.run_id_hint {
            Some(run_id) => run_id.clone(),
            None => {
                return Err(Fault::RunIdMissing);
            },
        },
    };
    let dispatch_id = match &request.persistence.dispatch_id_hint {
        Some(id) => id.clone(),
        None => fresh_id(),
    };
    Ok(RunDispatch::queued(dispatch_id, thread_id.to_owned(), run_id, now, max_attempts))
}

/// What of the mailbox a submit depends on.
#[derive(Clone, Copy, Debug, PartialEq, Eq, Structural)]
pub struct SubmitSettings {
    pub has_pending_store: bool,
    pub max_attempts: u32,
}

/// A submit that has had no effect yet: its thread, the request, and the messages
/// with their ids.
#[derive(Debug, PartialEq)]
pub struct Draft {
    pub thread_id: String,
    pub request: RunActivation,
    pub messages: Vec<Message>,
}

/// Whether `out` holds the messages of `from`, each with an id: its own, or a fresh
/// one where it lacks one.
pub open spec fn holds_messages(out: Seq<Message>, from: Seq<Message>) -> bool {
    &&& out.len() == from.len()
    &&& forall|i: int|
        #![trigger out[i]]
        0 <= i < out.len() ==> !lacks_id(out[i]) && (if lacks_id(from[i]) {
            out[i]@ == (MessageView { id: out[i]@.id, ..from[i]@ }) && is_uuid(out[i].id->0@)
        } else {
            out[i]@ == from[i]@
        })
}

/// Whether a draft is how a request is submitted: with its run mode normalized,
/// on the thread that it names or else a fresh one.
pub open spec fn is_draft(draft: Draft, request: RunActivation, background: bool) -> bool {
    &&& draft.request == with_normalized_mode(request, background)
    &&& is_thread_for(request.intent.thread_id@, draft.thread_id@)
    &&& holds_messages(draft.messages@, request.messages@)
}

/// Whether a request can be submitted: it has a message, or decisions that the run
/// goes on with.
pub open spec fn is_submittable(request: RunActivation) -> bool {
    request.messages@.len() > 0 || request.control.seeded_decisions@.len() > 0
}

/// Copies of messages, each with an id.
fn identified_copies(messages: &Vec<Message>) -> (r: Vec<Message>)
    ensures
        holds_messages(r@, messages@),
{
    let copies = copy_messages(messages);
    let ghost copied = copies@;
    let out = normalize_message_ids(copies);
    proof {
        assert forall|i: int| 0 <= i < out@.len() implies !lacks_id(#[trigger] out@[i]) && (
        if lacks_id(messages@[i]) {
            out@[i]@ == (MessageView { id: out@[i]@.id, ..messages@[i]@ }) && is_uuid(
                out@[i].id->0@,
            )
        } else {
            out@[i]@ == messages@[i]@
        }) by {
            assert(copied[i]@ == messages@[i]@);
            assert(lacks_id(copied[i]) == lacks_id(messages@[i]));
        }
    }
    out
}

fn draft_of(request: RunActivation, background: bool) -> (r: Result<Draft, Fault>)
    ensures
        match r {
            Ok(draft) => is_submittable(request) && is_draft(draft, request, background),
            Err(fault) => !is_submittable(request) && fault == Fault::NoMessages,
        },
{
    let normalized = normalize_mailbox_run_mode(request, background);
    let decided = normalized.control.seeded_decisions.len() > 0;
    let copies = identified_copies(&normalized.messages);
    match check_run_inputs(normalized.intent.thread_id.clone(), copies, decided) {
        Err(fault) => Err(fault),
        Ok((thread_id, messages)) => Ok(Draft { thread_id, request: normalized, messages }),
    }
}

/// The operation that is due in a submit.
#[derive(Debug, PartialEq)]
pub enum SubmitStep {
    /// Load the pending messages of the thread.
    LoadPending { draft: Draft },
    /// Select from the queue what an interrupt of the thread would consume.
    Select { draft: Draft, queue: Vec<PendingMessageRecord> },
    /// Interrupt the thread in the store.
    Interrupt { draft: Draft },
    /// Settle the interrupted thread.
    Settle { draft: Draft, aftermath: Aftermath },
    /// Cancel the thread's run in this process, and wait until it has ended.
    CancelAndWait { draft: Draft },
    /// Prepare the run.
    Prepare { preparation: RunPreparation },
    /// Queue the dispatch in the store.
    Enqueue { request: RunActivation, run_id: String, dispatch: RunDispatch },
    /// Publish that the dispatch was not queued.
    PublishSubmitFailed { request: RunActivation, dispatch: RunDispatch, error: StorageError },
    /// Publish that the decisions of the request will not be taken up.
    PublishResumeFailed { request: RunActivation, dispatch: RunDispatch, error: StorageError },
    /// Publish that the run is queued.
    PublishQueued { run_id: String, dispatch: RunDispatch },
    /// Claim the dispatch for this process.
    Claim { run_id: String, dispatch: RunDispatch },
    /// Start the execution of the claimed dispatch.
    Start { run_id: String, dispatch: RunDispatch, claimed: RunDispatch, claim_token: String },
    /// Cancel the dispatch, which could not be claimed.
    CancelOrphan { dispatch: RunDispatch },
    /// Mark the run of the cancelled dispatch.
    MarkOrphan { cancelled: RunDispatch },
    /// Load the dispatch again, which could not be cancelled.
    ReloadOrphan { dispatch: RunDispatch },
    /// Reconcile the run of the dispatch with how it ended.
    ReconcileOrphan { ended: RunDispatch, kind: TerminalKind },
    /// Let the worker of the thread take up its next dispatch.
    DispatchNext { run_id: String, dispatch: RunDispatch },
    /// The submit is over.
    Done { outcome: Result<MailboxSubmitResult, Fault> },
}

/// The reply to the operation of a step. Times are in milliseconds.
#[derive(Debug, PartialEq)]
pub enum SubmitReply {
    Pending(Result<Vec<PendingMessageRecord>, StorageError>),
    Selected(usize),
    Interrupted(Result<MailboxInterruptDetails, StorageError>),
    Settling(AftermathReply),
    Accepted(bool),
    Preparing { reply: PrepareReply, now: u64 },
    Queued,
    NotQueued(StorageError),
    Claimed(Result<Option<RunDispatch>, StorageError>),
    Cancelled(Result<Option<RunDispatch>, StorageError>),
    Dispatch(Result<Option<RunDispatch>, StorageError>),
    Dispatched { started: bool },
    Performed,
}

/// Whether a reply is one that the operation of a step gives.
pub open spec fn submit_answers(step: SubmitStep, reply: SubmitReply) -> bool {
    match step {
        SubmitStep::LoadPending { .. } => reply matches SubmitReply::Pending(result) && (
        result matches Ok(stored) ==> stored@.len() < u64::MAX),
        SubmitStep::Select { queue, .. } => reply is Selected && queue@.len() > 1,
        SubmitStep::Interrupt { .. } => reply is Interrupted,
        SubmitStep::Settle { aftermath, .. } => reply matches SubmitReply::Settling(inner)
            && aftermath_answers(aftermath, inner),
        SubmitStep::CancelAndWait { .. } => reply is Accepted,
        SubmitStep::Prepare { preparation } => reply matches SubmitReply::Preparing {
            reply: inner,
            now,
        } && prepare_answers(preparation.step, inner) && now + INLINE_CLAIM_GUARD_MS <= u64::MAX,
        SubmitStep::Enqueue { .. } => reply is Queued || reply is NotQueued,
        SubmitStep::PublishSubmitFailed { .. } => reply is Performed,
        SubmitStep::PublishResumeFailed { .. } => reply is Performed,
        SubmitStep::PublishQueued { .. } => reply is Performed,
        SubmitStep::Claim { .. } => reply is Claimed,
        SubmitStep::Start { .. } => reply is Performed,
        SubmitStep::CancelOrphan { .. } => reply is Cancelled,
        SubmitStep::MarkOrphan { .. } => reply is Performed,
        SubmitStep::ReloadOrphan { .. } => reply is Dispatch,
        SubmitStep::ReconcileOrphan { .. } => reply is Performed,
        SubmitStep::DispatchNext { .. } => reply is Dispatched,
        SubmitStep::Done { .. } => false,
    }
}

/// A submit under way. One that is `inline` interrupts the thread and is claimed
/// by this process; another is queued.
#[derive(Debug, PartialEq)]
pub struct Submission {
    pub inline: bool,
    pub settings: SubmitSettings,
    pub step: SubmitStep,
}

/// The submit fails.
pub open spec fn failed(fault: Fault) -> SubmitStep {
    SubmitStep::Done { outcome: Err(fault) }
}

/// Whether `after` begins the preparation of a draft.
pub open spec fn begins_preparing(
    settings: SubmitSettings,
    draft: Draft,
    fresh: RunIds,
    after: SubmitStep,
) -> bool {
    after matches SubmitStep::Prepare { preparation } && begins_preparation(
        PrepareScope {
            thread_id: draft.thread_id,
            has_pending_store: settings.has_pending_store,
        },
        with_dispatch_hint(draft.request, fresh.dispatch_id),
        draft.messages,
        fresh,
        preparation,
    )
}

/// Whether `after` is the step at a stage of the preparation. A prepared run is
/// dispatched: an inline one becomes available to others only after the guard.
pub open spec fn follows_preparation(
    inline: bool,
    settings: SubmitSettings,
    stage: RunPreparation,
    now: u64,
    after: SubmitStep,
) -> bool {
    match stage.step {
        PrepareStep::Done { outcome: Err(fault) } => after == failed(fault),
        PrepareStep::Done { outcome: Ok(run_id) } => if prepared_run(stage.request) is None {
            after == failed(Fault::RunIdMissing)
        } else {
            &&& after matches SubmitStep::Enqueue { request, run_id: id, dispatch }
            &&& request == stage.request
            &&& id == run_id
            &&& dispatch.available_at == (if inline {
                now + INLINE_CLAIM_GUARD_MS
            } else {
                now as int
            })
            &&& is_dispatch_of(
                RunDispatch { available_at: now, ..dispatch },
                request,
                stage.scope.thread_id@,
                settings.max_attempts,
                now,
            )
        },
        _ => after == (SubmitStep::Prepare { preparation: stage }),
    }
}

/// What a submit returns.
pub open spec fn submitted(
    run_id: String,
    dispatch: RunDispatch,
    status: MailboxDispatchStatus,
) -> SubmitStep {
    SubmitStep::Done {
        outcome: Ok(
            MailboxSubmitResult {
                dispatch_id: dispatch.dispatch_id,
                run_id,
                thread_id: dispatch.thread_id,
                status,
            },
        ),
    }
}

/// Whether `after` is the step at a state of the settling of the thread.
pub open spec fn follows_settling(
    settings: SubmitSettings,
    draft: Draft,
    aftermath: Aftermath,
    fresh: RunIds,
    after: SubmitStep,
) -> bool {
    match aftermath.step {
        AftermathStep::Done { outcome: Ok(free) } => if free {
            begins_preparing(settings, draft, fresh, after)
        } else {
            after == failed(Fault::ActiveRunConflict)
        },
        AftermathStep::Done { outcome: Err(fault) } => after == failed(fault),
        _ => after == (SubmitStep::Settle { draft, aftermath }),
    }
}

/// Whether `after` is the verdict on a preflight that selected nothing.
pub open spec fn is_blocked(queue: Seq<PendingMessageRecord>, after: SubmitStep) -> bool {
    exists|at: int|
        0 <= at < queue.len() - 1 && #[trigger] blocking_entry(queue.drop_last(), at) && after
            == failed(
            Fault::DeliveryBlockedByBarrier { blocking_pending_id: queue[at].pending_id },
        )
}

/// Whether `after` is a step that a reply may lead to. `fresh` holds the ids for a
/// run and a dispatch that have none.
pub open spec fn submit_follows(
    inline: bool,
    settings: SubmitSettings,
    step: SubmitStep,
    reply: SubmitReply,
    fresh: RunIds,
    after: SubmitStep,
) -> bool {
    match (step, reply) {
        (SubmitStep::LoadPending { draft }, SubmitReply::Pending(result)) => match result {
            Err(error) => after == failed(Fault::Store(error)),
            Ok(stored) => if stored@.len() == 0 {
                after == (SubmitStep::Interrupt { draft })
            } else {
                after matches SubmitStep::Select { draft: d, queue } && d == draft
                    && is_preflight_queue(queue@, stored@, draft.thread_id@)
            },
        },
        (SubmitStep::Select { draft, queue }, SubmitReply::Selected(count)) => if count > 0 {
            after == (SubmitStep::Interrupt { draft })
        } else {
            is_blocked(queue@, after)
        },
        (SubmitStep::Interrupt { draft }, SubmitReply::Interrupted(result)) => match result {
            Err(_) => after == (SubmitStep::CancelAndWait { draft }),
            Ok(details) => follows_settling(
                settings,
                draft,
                Aftermath {
                    wait_for_release: true,
                    details,
                    step: aftermath_at(details, true, 0),
                },
                fresh,
                after,
            ),
        },
        (SubmitStep::Settle { draft, aftermath }, SubmitReply::Settling(inner)) => follows_settling(
            settings,
            draft,
            Aftermath { step: next_aftermath_step(aftermath, inner), ..aftermath },
            fresh,
            after,
        ),
        (SubmitStep::CancelAndWait { draft }, SubmitReply::Accepted(accepted)) => if accepted {
            begins_preparing(settings, draft, fresh, after)
        } else {
            after == failed(Fault::ActiveRunConflict)
        },
        (SubmitStep::Prepare { preparation }, SubmitReply::Preparing { reply: inner, now }) =>
        exists|stage: RunPreparation|
            #[trigger] prepare_follows(preparation, inner, fresh, stage) && follows_preparation(
                inline,
                settings,
                stage,
                now,
                after,
            ),
        (SubmitStep::Enqueue { run_id, dispatch, .. }, SubmitReply::Queued) => after == (
        SubmitStep::PublishQueued { run_id, dispatch }),
        (SubmitStep::Enqueue { request, dispatch, .. }, SubmitReply::NotQueued(error)) => after == (
        SubmitStep::PublishSubmitFailed { request, dispatch, error }),
        (SubmitStep::PublishSubmitFailed { request, dispatch, error }, _) => after == (
        if request.control.seeded_decisions@.len() > 0 {
            SubmitStep::PublishResumeFailed { request, dispatch, error }
        } else {
            failed(Fault::Store(error))
        }),
        (SubmitStep::PublishResumeFailed { error, .. }, _) => after == failed(Fault::Store(error)),
        (SubmitStep::PublishQueued { run_id, dispatch }, _) => after == (if inline {
            SubmitStep::Claim { run_id, dispatch }
        } else {
            SubmitStep::DispatchNext { run_id, dispatch }
        }),
        (SubmitStep::Claim { run_id, dispatch }, SubmitReply::Claimed(result)) => match result {
            Err(error) => after == failed(Fault::Store(error)),
            Ok(Some(claimed)) => match claimed.claim_token {
                Some(claim_token) => after == (SubmitStep::Start {
                    run_id,
                    dispatch,
                    claimed,
                    claim_token,
                }),
                None => after == failed(
                    Fault::ClaimTokenMissing { dispatch_id: claimed.dispatch_id },
                ),
            },
            Ok(None) => after == (SubmitStep::CancelOrphan { dispatch }),
        },
        (SubmitStep::Start { run_id, dispatch, .. }, _) => after == submitted(
            run_id,
            dispatch,
            MailboxDispatchStatus::Running,
        ),
        (SubmitStep::CancelOrphan { dispatch }, SubmitReply::Cancelled(result)) => match result {
            Err(_) => after == failed(Fault::ActiveRunConflict),
            Ok(Some(cancelled)) => after == (SubmitStep::MarkOrphan { cancelled }),
            Ok(None) => after == (SubmitStep::ReloadOrphan { dispatch }),
        },
        (SubmitStep::MarkOrphan { .. }, _) => after == failed(Fault::ActiveRunConflict),
        (SubmitStep::ReloadOrphan { .. }, SubmitReply::Dispatch(result)) => after == (match result {
            Ok(Some(ended)) => match terminal_kind(ended.status) {
                Some(kind) => SubmitStep::ReconcileOrphan { ended, kind },
                None => failed(Fault::ActiveRunConflict),
            },
            Ok(None) => failed(Fault::ActiveRunConflict),
            Err(_) => failed(Fault::ActiveRunConflict),
        }),
        (SubmitStep::ReconcileOrphan { .. }, _) => after == failed(Fault::ActiveRunConflict),
        (SubmitStep::DispatchNext { run_id, dispatch }, SubmitReply::Dispatched { started }) =>
        after == submitted(
            run_id,
            dispatch,
            if started {
                MailboxDispatchStatus::Running
            } else {
                MailboxDispatchStatus::Queued
            },
        ),
        _ => false,
    }
}

fn fail(fault: Fault) -> (r: SubmitStep)
    ensures
        r == failed(fault),
{
    SubmitStep::Done { outcome: Err(fault) }
}

fn begin_preparing(settings: SubmitSettings, draft: Draft, fresh: RunIds) -> (r: SubmitStep)
    ensures
        begins_preparing(settings, draft, fresh, r),
{
    let request = dispatch_id_hint_or(draft.request, fresh.dispatch_id.clone());
    let scope = PrepareScope {
        thread_id: draft.thread_id,
        has_pending_store: settings.has_pending_store,
    };
    SubmitStep::Prepare {
        preparation: RunPreparation::prepare_with(scope, request, draft.messages, fresh),
    }
}

fn after_settling(settings: SubmitSettings, draft: Draft, aftermath: Aftermath, fresh: RunIds) -> (r:
    SubmitStep)
    ensures
        follows_settling(settings, draft, aftermath, fresh, r),
{
    match aftermath.step {
        AftermathStep::Done { outcome: Ok(free) } => if free {
            begin_preparing(settings, draft, fresh)
        } else {
            fail(Fault::ActiveRunConflict)
        },
        AftermathStep::Done { outcome: Err(fault) } => fail(fault),
        _ => SubmitStep::Settle { draft, aftermath },
    }
}

fn after_preparation(inline: bool, settings: SubmitSettings, stage: RunPreparation, now: u64) -> (r:
    SubmitStep)
    requires
        now + INLINE_CLAIM_GUARD_MS <= u64::MAX,
    ensures
        follows_preparation(inline, settings, stage, now, r),
{
    match stage.step {
        PrepareStep::Done { outcome: Err(fault) } => fail(fault),
        PrepareStep::Done { outcome: Ok(run_id) } => {
            match build_dispatch(
                &stage.request,
                stage.scope.thread_id.as_str(),
                settings.max_attempts,
                now,
            ) {
                Err(fault) => fail(fault),
                Ok(built) => {
                    let mut dispatch = built;
                    if inline {
                        dispatch.available_at = now + INLINE_CLAIM_GUARD_MS;
                    }
                    assert(RunDispatch { available_at: now, ..dispatch } == built);
                    SubmitStep::Enqueue { request: stage.request, run_id, dispatch }
                },
            }
        },
        _ => SubmitStep::Prepare { preparation: stage },
    }
}

fn submit_result(run_id: String, dispatch: RunDispatch, status: MailboxDispatchStatus) -> (r:
    SubmitStep)
    ensures
        r == submitted(run_id, dispatch, status),
{
    SubmitStep::Done {
        outcome: Ok(
            MailboxSubmitResult {
                dispatch_id: dispatch.dispatch_id,
                run_id,
                thread_id: dispatch.thread_id,
                status,
            },
        ),
    }
}

/// Whether an event is the one that the due step of a submit publishes, where it
/// publishes one. `wait_ms` is how long a cancel waits for the release.
pub open spec fn is_submit_event(step: SubmitStep, wait_ms: u64, event: Option<EventDraft>) -> bool {
    match step {
        SubmitStep::Settle { aftermath, .. } => is_aftermath_event(aftermath, wait_ms, event),
        SubmitStep::PublishSubmitFailed { dispatch, error, .. } => event matches Some(draft)
            && is_dispatch_event(
            draft,
            "MailboxSubmitFailed",
            dispatch,
            Some("enqueue_failed"),
            Some(error.text()),
            None,
        ),
        SubmitStep::PublishResumeFailed { request, dispatch, error } => event matches Some(draft)
            && is_resume_failed_event(
            draft,
            dispatch,
            request.control.seeded_decisions@,
            "enqueue_failed",
            error,
        ),
        SubmitStep::PublishQueued { dispatch, .. } => event matches Some(draft)
            && is_dispatch_event(draft, "RunQueued", dispatch, None, None, None),
        _ => event is None,
    }
}

impl Submission {
    /// The event that the due step publishes, where it publishes one. `wait_ms` is how
    /// long a cancel waits for the release.
    pub fn event(&self, wait_ms: u64) -> (r: Option<EventDraft>)
        ensures
            is_submit_event(self.step, wait_ms, r),
    {
        match &self.step {
            SubmitStep::Settle { draft: _, aftermath } => aftermath.event(wait_ms),
            SubmitStep::PublishSubmitFailed { dispatch, error, .. } => Some(
                record_mailbox_submit_failed(dispatch, error),
            ),
            SubmitStep::PublishResumeFailed { request, dispatch, error } => Some(
                record_mailbox_resume_failed(
                    dispatch,
                    &request.control.seeded_decisions,
                    "enqueue_failed",
                    error,
                ),
            ),
            SubmitStep::PublishQueued { dispatch, .. } => Some(
                record_mailbox_dispatch_event("RunQueued", dispatch),
            ),
            _ => None,
        }
    }

    /// Begin to submit a run for streaming. Where there is a pending store, a
    /// foreground run is first tried against the pending messages of the thread,
    /// before anything is interrupted.
    pub fn submit(settings: SubmitSettings, request: RunActivation) -> (r: Submission)
        ensures
            r.inline,
            r.settings == settings,
            if is_submittable(request) {
                let preflight = settings.has_pending_store && with_normalized_mode(
                    request,
                    false,
                ).trace.run_mode == RunMode::Foreground;
                match r.step {
                    SubmitStep::LoadPending { draft } => preflight && is_draft(
                        draft,
                        request,
                        false,
                    ),
                    SubmitStep::Interrupt { draft } => !preflight && is_draft(
                        draft,
                        request,
                        false,
                    ),
                    _ => false,
                }
            } else {
                r.step == failed(Fault::NoMessages)
            },
    {
        let step = match draft_of(request, false) {
            Err(fault) => fail(fault),
            Ok(draft) => if settings.has_pending_store && draft.request.trace.run_mode
                == RunMode::Foreground {
                SubmitStep::LoadPending { draft }
            } else {
                SubmitStep::Interrupt { draft }
            },
        };
        Submission { inline: true, settings, step }
    }

    /// Begin to submit a run in the background.
    pub fn submit_background(settings: SubmitSettings, request: RunActivation) -> (r: Submission)
        ensures
            !r.inline,
            r.settings == settings,
            if is_submittable(request) {
                exists|draft: Draft, fresh: RunIds|
                    is_uuid(fresh.run_id@) && is_uuid(fresh.dispatch_id@) && is_draft(
                        draft,
                        request,
                        true,
                    ) && #[trigger] begins_preparing(settings, draft, fresh, r.step)
            } else {
                r.step == failed(Fault::NoMessages)
            },
    {
        let fresh = RunIds { run_id: fresh_id(), dispatch_id: fresh_id() };
        Self::submit_background_with(settings, request, fresh)
    }

    /// Begin to submit a run in the background, with the given ids for a run and a
    /// dispatch that have none.
    pub fn submit_background_with(
        settings: SubmitSettings,
        request: RunActivation,
        fresh: RunIds,
    ) -> (r: Submission)
        ensures
            !r.inline,
            r.settings == settings,
            if is_submittable(request) {
                exists|draft: Draft|
                    is_draft(draft, request, true) && #[trigger] begins_preparing(
                        settings,
                        draft,
                        fresh,
                        r.step,
                    )
            } else {
                r.step == failed(Fault::NoMessages)
            },
    {
        let step = match draft_of(request, true) {
            Err(fault) => fail(fault),
            Ok(draft) => begin_preparing(settings, draft, fresh),
        };
        Submission { inline: false, settings, step }
    }

    /// Whether a reply is one that the operation of the due step gives.
    pub fn expects(&self, reply: &SubmitReply) -> (r: bool)
        ensures
            r == submit_answers(self.step, *reply),
    {
        match (&self.step, reply) {
            (SubmitStep::LoadPending { .. }, SubmitReply::Pending(Ok(stored))) => {
                let count: u128 = stored.len() as u128;
                count < u64::MAX as u128
            },
            (SubmitStep::LoadPending { .. }, SubmitReply::Pending(Err(_))) => true,
            (SubmitStep::Select { queue, .. }, SubmitReply::Selected(_)) => queue.len() > 1,
            (SubmitStep::Interrupt { .. }, SubmitReply::Interrupted(_)) => true,
            (SubmitStep::Settle { aftermath, .. }, SubmitReply::Settling(inner)) =>
            aftermath.expects(inner),
            (SubmitStep::CancelAndWait { .. }, SubmitReply::Accepted(_)) => true,
            (
                SubmitStep::Prepare { preparation },
                SubmitReply::Preparing { reply: inner, now },
            ) => preparation.expects(inner) && *now <= u64::MAX - INLINE_CLAIM_GUARD_MS,
            (SubmitStep::Enqueue { .. }, SubmitReply::Queued) => true,
            (SubmitStep::Enqueue { .. }, SubmitReply::NotQueued(_)) => true,
            (SubmitStep::PublishSubmitFailed { .. }, SubmitReply::Performed) => true,
            (SubmitStep::PublishResumeFailed { .. }, SubmitReply::Performed) => true,
            (SubmitStep::PublishQueued { .. }, SubmitReply::Performed) => true,
            (SubmitStep::Claim { .. }, SubmitReply::Claimed(_)) => true,
            (SubmitStep::Start { .. }, SubmitReply::Performed) => true,
            (SubmitStep::CancelOrphan { .. }, SubmitReply::Cancelled(_)) => true,
            (SubmitStep::MarkOrphan { .. }, SubmitReply::Performed) => true,
            (SubmitStep::ReloadOrphan { .. }, SubmitReply::Dispatch(_)) => true,
            (SubmitStep::ReconcileOrphan { .. }, SubmitReply::Performed) => true,
            (SubmitStep::DispatchNext { .. }, SubmitReply::Dispatched { .. }) => true,
            _ => false,
        }
    }

    /// Take the reply to the operation that was due.
    pub fn advance(self, reply: SubmitReply) -> (r: Submission)
        requires
            submit_answers(self.step, reply),
        ensures
            r.inline == self.inline,
            r.settings == self.settings,
            exists|fresh: RunIds|
                is_uuid(fresh.run_id@) && is_uuid(fresh.dispatch_id@) && #[trigger] submit_follows(
                    self.inline,
                    self.settings,
                    self.step,
                    reply,
                    fresh,
                    r.step,
                ),
    {
        let fresh = RunIds { run_id: fresh_id(), dispatch_id: fresh_id() };
        self.advance_with(reply, fresh)
    }

    /// Take the reply to the operation that was due, with the given ids for a run
    /// and a dispatch that have none.
    pub fn advance_with(self, reply: SubmitReply, fresh: RunIds) -> (r: Submission)
        requires
            submit_answers(self.step, reply),
        ensures
            r.inline == self.inline,
            r.settings == self.settings,
            submit_follows(self.inline, self.settings, self.step, reply, fresh, r.step),
    {
        let inline = self.inline;
        let settings = self.settings;
        let step = match (self.step, reply) {
            (SubmitStep::LoadPending { draft }, SubmitReply::Pending(result)) => match result {
                Err(error) => fail(Fault::Store(error)),
                Ok(stored) => match preflight_foreground_pending(&draft.thread_id, Some(stored)) {
                    Some(queue) => SubmitStep::Select { draft, queue },
                    None => SubmitStep::Interrupt { draft },
                },
            },
            (SubmitStep::Select { draft, queue }, SubmitReply::Selected(count)) => {
                match preflight_verdict(&queue, count) {
                    Ok(_) => SubmitStep::Interrupt { draft },
                    Err(fault) => fail(fault),
                }
            },
            (SubmitStep::Interrupt { draft }, SubmitReply::Interrupted(result)) => match result {
                Err(_) => SubmitStep::CancelAndWait { draft },
                Ok(details) => after_settling(settings, draft, Aftermath::of(details, true), fresh),
            },
            (SubmitStep::Settle { draft, aftermath }, SubmitReply::Settling(inner)) =>
            after_settling(settings, draft, aftermath.advance(inner), fresh),
            (SubmitStep::CancelAndWait { draft }, SubmitReply::Accepted(accepted)) => if accepted {
                begin_preparing(settings, draft, fresh)
            } else {
                fail(Fault::ActiveRunConflict)
            },
            (SubmitStep::Prepare { preparation }, SubmitReply::Preparing { reply: inner, now }) => {
                let stage = preparation.advance_with(inner, fresh);
                after_preparation(inline, settings, stage, now)
            },
            (SubmitStep::Enqueue { run_id, dispatch, .. }, SubmitReply::Queued) =>
            SubmitStep::PublishQueued { run_id, dispatch },
            (SubmitStep::Enqueue { request, dispatch, .. }, SubmitReply::NotQueued(error)) =>
            SubmitStep::PublishSubmitFailed { request, dispatch, error },
            (SubmitStep::PublishSubmitFailed { request, dispatch, error }, _) => {
                if request.control.seeded_decisions.len() > 0 {
                    SubmitStep::PublishResumeFailed { request, dispatch, error }
                } else {
                    fail(Fault::Store(error))
                }
            },
            (SubmitStep::PublishResumeFailed { error, .. }, _) => fail(Fault::Store(error)),
            (SubmitStep::PublishQueued { run_id, dispatch }, _) => if inline {
                SubmitStep::Claim { run_id, dispatch }
            } else {
                SubmitStep::DispatchNext { run_id, dispatch }
            },
            (SubmitStep::Claim { run_id, dispatch }, SubmitReply::Claimed(result)) => match result {
                Err(error) => fail(Fault::Store(error)),
                Ok(Some(claimed)) => match copy_text(&claimed.claim_token) {
                    Some(claim_token) => SubmitStep::Start {
                        run_id,
                        dispatch,
                        claimed,
                        claim_token,
                    },
                    None => fail(Fault::ClaimTokenMissing { dispatch_id: claimed.dispatch_id }),
                },
                Ok(None) => SubmitStep::CancelOrphan { dispatch },
            },
            (SubmitStep::Start { run_id, dispatch, .. }, _) => submit_result(
                run_id,
                dispatch,
                MailboxDispatchStatus::Running,
            ),
            (SubmitStep::CancelOrphan { dispatch }, SubmitReply::Cancelled(result)) => match result {
                Err(_) => fail(Fault::ActiveRunConflict),
                Ok(Some(cancelled)) => SubmitStep::MarkOrphan { cancelled },
                Ok(None) => SubmitStep::ReloadOrphan { dispatch },
            },
            (SubmitStep::MarkOrphan { .. }, _) => fail(Fault::ActiveRunConflict),
            (SubmitStep::ReloadOrphan { .. }, SubmitReply::Dispatch(result)) => match result {
                Ok(Some(ended)) => match reconcile_terminal_dispatch(ended.status) {
                    Some(kind) => SubmitStep::ReconcileOrphan { ended, kind },
                    None => fail(Fault::ActiveRunConflict),
                },
                _ => fail(Fault::ActiveRunConflict),
            },
            (SubmitStep::ReconcileOrphan { .. }, _) => fail(Fault::ActiveRunConflict),
            (SubmitStep::DispatchNext { run_id, dispatch }, SubmitReply::Dispatched { started }) => {
                let status = if started {
                    MailboxDispatchStatus::Running
                } else {
                    MailboxDispatchStatus::Queued
                };
                submit_result(run_id, dispatch, status)
            },
            (step, _) => step,
        };
        Submission { inline, settings, step }
    }
}

/// A submit: the steps that were due, the replies to them, and the ids that were
/// fresh at each.
pub open spec fn is_submission(
    inline: bool,
    settings: SubmitSettings,
    steps: Seq<SubmitStep>,
    replies: Seq<SubmitReply>,
    fresh: Seq<RunIds>,
) -> bool {
    &&& steps.len() == replies.len() + 1
    &&& fresh.len() == replies.len()
    &&& forall|i: int|
        #![trigger replies[i]]
        0 <= i < replies.len() ==> submit_answers(steps[i], replies[i]) && submit_follows(
            inline,
            settings,
            steps[i],
            replies[i],
            fresh[i],
            steps[i + 1],
        )
}

/// Whether the first replies to a submit cleared it: nothing is pending on the
/// thread, or the selection reaches the foreground message.
pub open spec fn is_cleared(replies: Seq<SubmitReply>) -> bool {
    &&& replies.len() > 0
    &&& replies[0] matches SubmitReply::Pending(Ok(stored))
    &&& stored@.len() == 0 || (replies.len() > 1 && (replies[1] matches SubmitReply::Selected(count)
        && count > 0))
}

/// A submit that is tried against the pending messages has no effect, neither an
/// interrupt nor a cancel nor a write, before it is cleared. One that a barrier
/// blocks leaves the active run untouched.
pub proof fn lemma_preflight_comes_before_any_effect(
    settings: SubmitSettings,
    steps: Seq<SubmitStep>,
    replies: Seq<SubmitReply>,
    fresh: Seq<RunIds>,
    at: int,
)
    requires
        is_submission(true, settings, steps, replies, fresh),
        steps[0] is LoadPending,
        0 <= at < steps.len(),
    ensures
        steps[at] is LoadPending ==> at == 0,
        steps[at] is Select ==> at == 1 && (replies[0] matches SubmitReply::Pending(Ok(_))),
        is_cleared(replies.take(at)) || steps[at] is LoadPending || steps[at] is Select
            || steps[at] is Done,
    decreases at,
{
    if at > 0 {
        lemma_preflight_comes_before_any_effect(settings, steps, replies, fresh, at - 1);
        assert(submit_answers(steps[at - 1], replies[at - 1]));
        assert(submit_follows(true, settings, steps[at - 1], replies[at - 1], fresh[at - 1], steps[at]));
        assert(forall|k: int| 0 <= k < at ==> replies.take(at)[k] == replies[k]);
        assert(forall|k: int| 0 <= k < at - 1 ==> replies.take(at - 1)[k] == replies[k]);
    }
}

/// Whether a dispatch was queued in the store before the step `at`.
pub open spec fn was_queued(
    steps: Seq<SubmitStep>,
    replies: Seq<SubmitReply>,
    at: int,
    run_id: String,
    dispatch: RunDispatch,
) -> bool {
    exists|i: int|
        0 <= i < at && #[trigger] replies[i] is Queued && (steps[i] matches SubmitStep::Enqueue {
            run_id: r,
            dispatch: d,
            ..
        } && r == run_id && d == dispatch)
}

/// Whether what a submit reports was queued in the store before the step `at`.
pub open spec fn report_was_queued(
    steps: Seq<SubmitStep>,
    replies: Seq<SubmitReply>,
    at: int,
    report: MailboxSubmitResult,
) -> bool {
    exists|dispatch: RunDispatch|
        #[trigger] was_queued(steps, replies, at, report.run_id, dispatch) && report.dispatch_id
            == dispatch.dispatch_id && report.thread_id == dispatch.thread_id
}

/// A dispatch is claimed, started or handed to the worker, and reported to the
/// caller, only after it was durably queued; what is reported is the dispatch that
/// was queued.
pub proof fn lemma_runs_are_queued_before_they_start(
    inline: bool,
    settings: SubmitSettings,
    steps: Seq<SubmitStep>,
    replies: Seq<SubmitReply>,
    fresh: Seq<RunIds>,
    at: int,
)
    requires
        is_submission(inline, settings, steps, replies, fresh),
        steps[0] is LoadPending || steps[0] is Interrupt || steps[0] is Prepare,
        0 <= at < steps.len(),
    ensures
        match steps[at] {
            SubmitStep::PublishQueued { run_id, dispatch } => was_queued(
                steps,
                replies,
                at,
                run_id,
                dispatch,
            ),
            SubmitStep::Claim { run_id, dispatch } => was_queued(
                steps,
                replies,
                at,
                run_id,
                dispatch,
            ),
            SubmitStep::Start { run_id, dispatch, .. } => was_queued(
                steps,
                replies,
                at,
                run_id,
                dispatch,
            ),
            SubmitStep::DispatchNext { run_id, dispatch } => was_queued(
                steps,
                replies,
                at,
                run_id,
                dispatch,
            ),
            SubmitStep::Done { outcome: Ok(report) } => report_was_queued(
                steps,
                replies,
                at,
                report,
            ),
            _ => true,
        },
    decreases at,
{
    if at > 0 {
        lemma_runs_are_queued_before_they_start(inline, settings, steps, replies, fresh, at - 1);
        let step = steps[at - 1];
        let reply = replies[at - 1];
        assert(submit_answers(step, reply));
        assert(submit_follows(inline, settings, step, reply, fresh[at - 1], steps[at]));
        let named: Option<(String, RunDispatch)> = match step {
            SubmitStep::PublishQueued { run_id, dispatch } => Some((run_id, dispatch)),
            SubmitStep::Claim { run_id, dispatch } => Some((run_id, dispatch)),
            SubmitStep::Start { run_id, dispatch, .. } => Some((run_id, dispatch)),
            SubmitStep::DispatchNext { run_id, dispatch } => Some((run_id, dispatch)),
            _ => None,
        };
        if let Some((run_id, dispatch)) = named {
            assert(was_queued(steps, replies, at - 1, run_id, dispatch));
            let i = choose|i: int|
                0 <= i < at - 1 && #[trigger] replies[i] is Queued && (
                steps[i] matches SubmitStep::Enqueue { run_id: r, dispatch: d, .. } && r == run_id
                    && d == dispatch);
            assert(replies[i] is Queued);
            assert(was_queued(steps, replies, at, run_id, dispatch));
        }
        if let SubmitStep::Done { outcome: Ok(report) } = steps[at] {
            if let Some((run_id, dispatch)) = named {
                assert(report.run_id == run_id);
                assert(report_was_queued(steps, replies, at, report));
            }
        }
    }
}

/// Whether a step is one that a submit begins with.
pub open spec fn begins_submit(settings: SubmitSettings, step: SubmitStep) -> bool {
    ||| step is LoadPending
    ||| step is Interrupt
    ||| exists|draft: Draft, fresh: RunIds| #[trigger] begins_preparing(settings, draft, fresh, step)
}

/// Whether a reply says that the record of a run, with the dispatch that `request`
/// names, was committed.
pub open spec fn stores(
    step: SubmitStep,
    reply: SubmitReply,
    run_id: String,
    request: RunActivation,
) -> bool {
    match (step, reply) {
        (SubmitStep::Prepare { preparation }, SubmitReply::Preparing { reply: inner, .. }) =>
        commits_record(preparation, inner, run_id, request),
        _ => false,
    }
}

/// Whether the record of a run was committed before the step `at`.
pub open spec fn was_stored_before(
    steps: Seq<SubmitStep>,
    replies: Seq<SubmitReply>,
    at: int,
    run_id: String,
    request: RunActivation,
) -> bool {
    exists|i: int| 0 <= i < at && #[trigger] stores(steps[i], replies[i], run_id, request)
}

/// Whether a preparation keeps its invariant, for whichever messages it is of.
pub open spec fn is_sound(preparation: RunPreparation) -> bool {
    exists|messages: Vec<Message>| #[trigger]
        preparation_invariant(preparation.scope, messages, preparation)
}

/// A dispatch is queued only after the record of its run was committed, and that
/// record names the very dispatch. Where the process stops in between, the record
/// is there for recovery to queue the dispatch from.
pub proof fn lemma_runs_are_stored_before_they_are_queued(
    inline: bool,
    settings: SubmitSettings,
    steps: Seq<SubmitStep>,
    replies: Seq<SubmitReply>,
    fresh: Seq<RunIds>,
    at: int,
)
    requires
        is_submission(inline, settings, steps, replies, fresh),
        begins_submit(settings, steps[0]),
        0 <= at < steps.len(),
    ensures
        match steps[at] {
            SubmitStep::Prepare { preparation } => {
                &&& is_sound(preparation)
                &&& !(preparation.step is Done)
                &&& stored_run(preparation.step) matches Some(run_id) ==> was_stored_before(
                    steps,
                    replies,
                    at,
                    run_id,
                    preparation.request,
                )
            },
            SubmitStep::Enqueue { request, run_id, dispatch } => {
                &&& was_stored_before(steps, replies, at, run_id, request)
                &&& request.persistence.dispatch_id_hint == Some(dispatch.dispatch_id)
            },
            _ => true,
        },
    decreases at,
{
    if at == 0 {
        if let SubmitStep::Prepare { preparation } = steps[0] {
            let (draft, ids) = choose|draft: Draft, ids: RunIds| #[trigger]
                begins_preparing(settings, draft, ids, steps[0]);
            assert(preparation_invariant(preparation.scope, draft.messages, preparation));
        }
    } else {
        lemma_runs_are_stored_before_they_are_queued(inline, settings, steps, replies, fresh, at - 1);
        let reply = replies[at - 1];
        assert(submit_answers(steps[at - 1], reply));
        assert(submit_follows(inline, settings, steps[at - 1], reply, fresh[at - 1], steps[at]));
        match steps[at - 1] {
            SubmitStep::Prepare { preparation } => {
                let inner = reply->reply;
                let stage = choose|stage: RunPreparation| #[trigger]
                    prepare_follows(preparation, inner, fresh[at - 1], stage) && follows_preparation(
                        inline,
                        settings,
                        stage,
                        reply->now,
                        steps[at],
                    );
                let messages = choose|messages: Vec<Message>| #[trigger]
                    preparation_invariant(preparation.scope, messages, preparation);
                lemma_preparation_step(messages, preparation, inner, fresh[at - 1], stage);
                if let Some(run_id) = stored_run(stage.step) {
                    if stored_run(preparation.step) == Some(run_id) {
                        let i = choose|i: int|
                            0 <= i < at - 1 && #[trigger] stores(
                                steps[i],
                                replies[i],
                                run_id,
                                preparation.request,
                            );
                        assert(stores(steps[i], replies[i], run_id, stage.request));
                    } else {
                        assert(stores(steps[at - 1], replies[at - 1], run_id, stage.request));
                    }
                }
            },
            _ => {
                if let SubmitStep::Prepare { preparation } = steps[at] {
                    let draft = match steps[at - 1] {
                        SubmitStep::Interrupt { draft } => draft,
                        SubmitStep::Settle { draft, .. } => draft,
                        SubmitStep::CancelAndWait { draft } => draft,
                        _ => arbitrary(),
                    };
                    assert(begins_preparing(settings, draft, fresh[at - 1], steps[at]));
                    assert(preparation_invariant(preparation.scope, draft.messages, preparation));
                }
            },
        }
    }
}

/// The operation that is due in a submit that first tries a run under way.
#[derive(Debug, PartialEq)]
pub enum LiveQueueStep {
    /// Deliver the messages to the run under way. The request stands by.
    Live { delivery: LiveDelivery, request: RunActivation },
    /// Submit the request in the background.
    Queue { submission: Submission },
    /// The submit is over.
    Done { outcome: Result<MailboxSubmitResult, Fault> },
}

/// The reply to the operation of a step.
#[derive(Debug, PartialEq)]
pub enum LiveQueueReply {
    Delivering(LiveReply),
    Submitting(SubmitReply),
}

/// Whether a reply is one that the operation of a step gives.
pub open spec fn live_queue_answers(step: LiveQueueStep, reply: LiveQueueReply) -> bool {
    match step {
        LiveQueueStep::Live { delivery, .. } => reply matches LiveQueueReply::Delivering(inner)
            && live_answers(delivery.step, inner),
        LiveQueueStep::Queue { submission } => reply matches LiveQueueReply::Submitting(inner)
            && submit_answers(submission.step, inner),
        LiveQueueStep::Done { .. } => false,
    }
}

/// Whether `after` is the step at a state of the background submit.
pub open spec fn live_queue_at(submission: Submission, after: LiveQueueStep) -> bool {
    match submission.step {
        SubmitStep::Done { outcome } => after == (LiveQueueStep::Done { outcome }),
        _ => after == (LiveQueueStep::Queue { submission }),
    }
}

/// Whether a submission begins the background submit of a request.
pub open spec fn begins_background(
    settings: SubmitSettings,
    request: RunActivation,
    fresh: RunIds,
    submission: Submission,
) -> bool {
    &&& !submission.inline
    &&& submission.settings == settings
    &&& if is_submittable(request) {
        exists|draft: Draft|
            is_draft(draft, request, true) && #[trigger] begins_preparing(
                settings,
                draft,
                fresh,
                submission.step,
            )
    } else {
        submission.step == failed(Fault::NoMessages)
    }
}

/// Whether `after` is the step at a step of the live delivery. Messages that were
/// not delivered are queued.
pub open spec fn live_queue_on_delivery(
    settings: SubmitSettings,
    delivery: LiveDelivery,
    request: RunActivation,
    fresh: RunIds,
    after: LiveQueueStep,
) -> bool {
    match delivery.step {
        LiveStep::Done { outcome: Ok(Some(report)) } => after == (LiveQueueStep::Done {
            outcome: Ok(report),
        }),
        LiveStep::Done { outcome: Ok(None) } => exists|submission: Submission| #[trigger]
            begins_background(settings, request, fresh, submission) && live_queue_at(
                submission,
                after,
            ),
        LiveStep::Done { outcome: Err(fault) } => after == (LiveQueueStep::Done {
            outcome: Err(fault),
        }),
        _ => after == (LiveQueueStep::Live { delivery, request }),
    }
}

/// Whether `after` is a step that a reply may lead to.
pub open spec fn live_queue_follows(
    settings: SubmitSettings,
    step: LiveQueueStep,
    reply: LiveQueueReply,
    fresh: RunIds,
    after: LiveQueueStep,
) -> bool {
    match (step, reply) {
        (LiveQueueStep::Live { delivery, request }, LiveQueueReply::Delivering(inner)) =>
        live_queue_on_delivery(
            settings,
            LiveDelivery { step: next_live_step(delivery.scope, delivery.step, inner), ..delivery },
            request,
            fresh,
            after,
        ),
        (LiveQueueStep::Queue { submission }, LiveQueueReply::Submitting(inner)) => exists|
            step: SubmitStep,
        | #[trigger]
            submit_follows(
                submission.inline,
                submission.settings,
                submission.step,
                inner,
                fresh,
                step,
            ) && live_queue_at(Submission { step, ..submission }, after),
        _ => false,
    }
}

/// Whether `queued` is the request that messages fall back to: the same, on the
/// thread of the submit, with the messages that were offered to the run.
pub open spec fn is_fallback(
    queued: RunActivation,
    request: RunActivation,
    thread_id: Seq<char>,
) -> bool {
    &&& queued == (RunActivation {
        intent: RunIntent { thread_id: queued.intent.thread_id, ..request.intent },
        messages: queued.messages,
        ..request
    })
    &&& queued.intent.thread_id@ == thread_id
    &&& is_thread_for(request.intent.thread_id@, thread_id)
    &&& holds_messages(queued.messages@, request.messages@)
}

/// A submit that first tries a run under way, with the queue to fall back on.
#[derive(Debug, PartialEq)]
pub struct LiveThenQueue {
    pub settings: SubmitSettings,
    pub step: LiveQueueStep,
}

/// Whether `after` begins a submit that first tries a run under way: what is
/// offered to the run is what the request falls back to.
pub open spec fn begins_live(
    settings: SubmitSettings,
    request: RunActivation,
    expected_run_id: Option<String>,
    local: Option<ActiveRun>,
    offered: Vec<Message>,
    queued: RunActivation,
    fresh: RunIds,
    after: LiveQueueStep,
) -> bool {
    let scope = LiveScope {
        thread_id: queued.intent.thread_id,
        expected_run_id,
        has_pending_store: settings.has_pending_store,
    };
    &&& is_fallback(queued, request, queued.intent.thread_id@)
    &&& offered@.len() == queued.messages@.len()
    &&& forall|i: int|
        0 <= i < offered@.len() ==> (#[trigger] offered@[i])@ == queued.messages@[i]@
    &&& live_queue_on_delivery(
        settings,
        LiveDelivery { scope, step: first_live_step(scope, offered, local) },
        queued,
        fresh,
        after,
    )
}

fn on_submission(submission: Submission) -> (r: LiveQueueStep)
    ensures
        live_queue_at(submission, r),
{
    match submission.step {
        SubmitStep::Done { outcome } => LiveQueueStep::Done { outcome },
        step => LiveQueueStep::Queue {
            submission: Submission {
                inline: submission.inline,
                settings: submission.settings,
                step,
            },
        },
    }
}

fn on_delivery(
    settings: SubmitSettings,
    delivery: LiveDelivery,
    request: RunActivation,
    fresh: RunIds,
) -> (r: LiveQueueStep)
    ensures
        live_queue_on_delivery(settings, delivery, request, fresh, r),
{
    match delivery.step {
        LiveStep::Done { outcome: Ok(Some(report)) } => LiveQueueStep::Done { outcome: Ok(report) },
        LiveStep::Done { outcome: Ok(None) } => {
            let submission = Submission::submit_background_with(settings, request, fresh);
            assert(begins_background(settings, request, fresh, submission));
            on_submission(submission)
        },
        LiveStep::Done { outcome: Err(fault) } => LiveQueueStep::Done { outcome: Err(fault) },
        step => LiveQueueStep::Live {
            delivery: LiveDelivery { scope: delivery.scope, step },
            request,
        },
    }
}

impl LiveThenQueue {
    /// Begin to submit messages to the run under way, if there is one. `local` is
    /// the run of this process on the thread.
    pub fn submit_live_then_queue(
        settings: SubmitSettings,
        request: RunActivation,
        expected_run_id: Option<String>,
        local: Option<ActiveRun>,
    ) -> (r: LiveThenQueue)
        ensures
            r.settings == settings,
            if is_submittable(request) {
                exists|offered: Vec<Message>, queued: RunActivation, fresh: RunIds|
                    is_uuid(fresh.run_id@) && is_uuid(fresh.dispatch_id@)
                        && #[trigger] begins_live(
                        settings,
                        request,
                        expected_run_id,
                        local,
                        offered,
                        queued,
                        fresh,
                        r.step,
                    )
            } else {
                r.step == (LiveQueueStep::Done { outcome: Err(Fault::NoMessages) })
            },
    {
        let fresh = RunIds { run_id: fresh_id(), dispatch_id: fresh_id() };
        let decided = request.control.seeded_decisions.len() > 0;
        let copies = identified_copies(&request.messages);
        match check_run_inputs(request.intent.thread_id.clone(), copies, decided) {
            Err(fault) => LiveThenQueue {
                settings,
                step: LiveQueueStep::Done { outcome: Err(fault) },
            },
            Ok((thread_id, messages)) => {
                let offered = copy_messages(&messages);
                let mut queued = request;
                queued.intent.thread_id = thread_id.clone();
                queued.messages = messages;
                let scope = LiveScope {
                    thread_id,
                    expected_run_id,
                    has_pending_store: settings.has_pending_store,
                };
                let ghost g_scope = scope;
                let ghost g_offered = offered;
                let ghost g_queued = queued;
                let delivery = LiveDelivery::try_deliver_live_messages(scope, offered, local);
                assert(delivery == LiveDelivery {
                    scope: g_scope,
                    step: first_live_step(g_scope, g_offered, local),
                });
                let step = on_delivery(settings, delivery, queued, fresh);
                assert(begins_live(
                    settings,
                    request,
                    expected_run_id,
                    local,
                    g_offered,
                    g_queued,
                    fresh,
                    step,
                ));
                LiveThenQueue { settings, step }
            },
        }
    }

    /// Whether a reply is one that the operation of the due step gives.
    pub fn expects(&self, reply: &LiveQueueReply) -> (r: bool)
        ensures
            r == live_queue_answers(self.step, *reply),
    {
        match (&self.step, reply) {
            (LiveQueueStep::Live { delivery, .. }, LiveQueueReply::Delivering(inner)) =>
            delivery.expects(inner),
            (LiveQueueStep::Queue { submission }, LiveQueueReply::Submitting(inner)) =>
            submission.expects(inner),
            _ => false,
        }
    }

    /// Take the reply to the operation that was due.
    pub fn advance(self, reply: LiveQueueReply) -> (r: LiveThenQueue)
        requires
            live_queue_answers(self.step, reply),
        ensures
            r.settings == self.settings,
            exists|fresh: RunIds|
                is_uuid(fresh.run_id@) && is_uuid(fresh.dispatch_id@)
                    && #[trigger] live_queue_follows(
                    self.settings,
                    self.step,
                    reply,
                    fresh,
                    r.step,
                ),
    {
        let settings = self.settings;
        let fresh = RunIds { run_id: fresh_id(), dispatch_id: fresh_id() };
        let ghost g_fresh = fresh;
        let step = match (self.step, reply) {
            (LiveQueueStep::Live { delivery, request }, LiveQueueReply::Delivering(inner)) =>
            on_delivery(settings, delivery.advance(inner), request, fresh),
            (LiveQueueStep::Queue { submission }, LiveQueueReply::Submitting(inner)) => {
                let next = submission.advance_with(inner, fresh);
                assert(next == Submission { step: next.step, ..submission });
                on_submission(next)
            },
            (step, _) => step,
        };
        assert(live_queue_follows(self.settings, self.step, reply, g_fresh, step));
        LiveThenQueue { settings, step }
    }
}

/// Messages are queued only where the run under way did not take them: a delivery
/// that reports a run is the end of the submit.
pub proof fn lemma_delivered_messages_are_not_queued(
    settings: SubmitSettings,
    delivery: LiveDelivery,
    request: RunActivation,
    reply: LiveReply,
    fresh: RunIds,
    after: LiveQueueStep,
)
    requires
        live_answers(delivery.step, reply),
        live_queue_follows(
            settings,
            LiveQueueStep::Live { delivery, request },
            LiveQueueReply::Delivering(reply),
            fresh,
            after,
        ),
    ensures
        after is Queue ==> next_live_step(delivery.scope, delivery.step, reply) == (LiveStep::Done {
            outcome: Ok(None),
        }),
        next_live_step(delivery.scope, delivery.step, reply) matches LiveStep::Done {
            outcome: Ok(Some(report)),
        } ==> after == (LiveQueueStep::Done { outcome: Ok(report) }),
{
}

} // verus!
