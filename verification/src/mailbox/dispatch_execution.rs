//! Claim-to-completion execution of one dispatch that a worker owns.
//!
//! [`ClaimedDispatch`] holds the claim and the step that is due. The driver
//! performs the step's operation and calls [`ClaimedDispatch::advance`] with the
//! reply, until the step is [`ExecutionStep::Done`].

use vstd::prelude::*;

use crate::activation::{RunActivation, RunMode, RunTrace};
use crate::dispatch::{RunDispatch, RunDispatchStatus};
use crate::error::{MailboxError, StorageError};
use crate::ids::{fresh_id, is_uuid};
use crate::mailbox::config::MailboxConfig;
use crate::mailbox::helpers::{
    normalize_mailbox_run_mode, retry_at, retry_delay_of, retry_time, with_normalized_mode,
};
use crate::mailbox::server_event_capture::{
    is_dispatch_event, is_errored_event, is_rescheduled_event, record_mailbox_dispatch_event,
    record_run_errored, record_run_rescheduled_dispatch, EventDraft,
};
use crate::run::{RunDispatchResult, RunRecord, RunStatus, TerminationReason};
use crate::runtime::{
    class_of, failed_run_result, is_run_result, mailbox_run_result, run_class, AgentLoopError,
    AgentRunResult, RunClass, RuntimeError,
};
use crate::text::{is_text, join3, join4};

verus! {

/// A dispatch that this worker claimed, and what its execution depends on.
/// `capture` tells whether runtime events are captured, and `staged` whether a
/// staged commit coordinator is there for them.
#[derive(Debug, PartialEq)]
pub struct Claim {
    pub dispatch: RunDispatch,
    pub claim_token: String,
    pub thread_id: String,
    pub config: MailboxConfig,
    pub capture: bool,
    pub staged: bool,
}

/// One execution of a dispatch: its id, and when it started.
#[derive(Debug, PartialEq)]
pub struct Session {
    pub instance_id: String,
    pub started_at: u64,
}

/// Why a run could not be resolved to something to execute.
#[allow(inconsistent_fields)]
#[derive(Debug, PartialEq)]
pub enum Unresolved {
    NoResolutionId { run_id: String },
    RunDisappeared { run_id: String },
    RunNotLoaded { run_id: String, error: StorageError },
    NotMaterialized { error: String },
    NotResolved { error: String },
}

impl Unresolved {
    /// The reason in words.
    pub open spec fn message(self) -> Seq<char> {
        match self {
            Unresolved::NoResolutionId { run_id } => "persistent dispatch for run '"@ + run_id@
                + "' has no resolution id"@,
            Unresolved::RunDisappeared { run_id } => "persistent dispatch run '"@ + run_id@
                + "' disappeared before resolution"@,
            Unresolved::RunNotLoaded { run_id, error } => "failed to load run '"@ + run_id@
                + "' before persistent dispatch resolution: "@ + error.text(),
            Unresolved::NotMaterialized { error } => error@,
            Unresolved::NotResolved { error } => error@,
        }
    }

    /// The error of the run: a resolution that failed for this reason.
    pub fn to_loop_error(&self) -> (r: AgentLoopError)
        ensures
            r matches AgentLoopError::RuntimeError(RuntimeError::ResolveFailed { message })
                && message@ == self.message(),
    {
        let message = match self {
            Unresolved::NoResolutionId { run_id } => join3(
                "persistent dispatch for run '",
                run_id.as_str(),
                "' has no resolution id",
            ),
            Unresolved::RunDisappeared { run_id } => join3(
                "persistent dispatch run '",
                run_id.as_str(),
                "' disappeared before resolution",
            ),
            Unresolved::RunNotLoaded { run_id, error } => join4(
                "failed to load run '",
                run_id.as_str(),
                "' before persistent dispatch resolution: ",
                error.to_text().as_str(),
            ),
            Unresolved::NotMaterialized { error } => error.clone(),
            Unresolved::NotResolved { error } => error.clone(),
        };
        AgentLoopError::RuntimeError(RuntimeError::ResolveFailed { message })
    }
}

/// How a run ended: with what the runtime returned, or before it was entered.
#[derive(Debug, PartialEq)]
pub enum RunEnd {
    Ran(Result<AgentRunResult, AgentLoopError>),
    NotRun(Unresolved),
}

impl RunEnd {
    /// What becomes of the dispatch. A run that cannot be resolved is given up.
    pub open spec fn class(self) -> RunClass {
        match self {
            RunEnd::Ran(result) => class_of(result),
            RunEnd::NotRun(_) => RunClass::Permanent,
        }
    }

    /// The error in words, where the run ended with one.
    pub open spec fn error_text(self) -> Seq<char> {
        match self {
            RunEnd::Ran(Err(error)) => error.text(),
            RunEnd::Ran(Ok(_)) => Seq::empty(),
            RunEnd::NotRun(reason) => "agent resolution failed: "@ + reason.message(),
        }
    }

    /// What becomes of the dispatch.
    pub fn class_of_end(&self) -> (r: RunClass)
        ensures
            r == self.class(),
    {
        match self {
            RunEnd::Ran(result) => run_class(result),
            RunEnd::NotRun(_) => RunClass::Permanent,
        }
    }

    /// The error in words, where the run ended with one.
    pub fn to_error_text(&self) -> (r: String)
        ensures
            r@ == self.error_text(),
    {
        match self {
            RunEnd::Ran(result) => match result {
                Ok(_) => String::new(),
                Err(error) => error.to_text(),
            },
            RunEnd::NotRun(reason) => reason.to_loop_error().to_text(),
        }
    }
}

/// Why a dispatch is dead-lettered.
#[derive(Debug, PartialEq)]
pub enum GiveUp {
    Reconstruction(MailboxError),
    CaptureMisconfigured,
    RunFailed(RunEnd),
}

impl GiveUp {
    /// The reason in words.
    pub open spec fn text(self) -> Seq<char> {
        match self {
            GiveUp::Reconstruction(error) => error.text(),
            GiveUp::CaptureMisconfigured =>
            "runtime event capture requires staged commit coordinator"@,
            GiveUp::RunFailed(end) => end.error_text(),
        }
    }

    /// The reason in words.
    pub fn to_text(&self) -> (r: String)
        ensures
            r@ == self.text(),
    {
        match self {
            GiveUp::Reconstruction(error) => error.to_text(),
            GiveUp::CaptureMisconfigured =>
            "runtime event capture requires staged commit coordinator".to_owned(),
            GiveUp::RunFailed(end) => end.to_error_text(),
        }
    }
}

/// Why a claimed dispatch is superseded whose thread has moved on to a later epoch.
pub const SUPERSEDED_CLAIM: &'static str = "claimed dispatch superseded before execution start";

/// The reason of the event of a run that goes back to the queue to be retried.
pub const RETRY_BACKOFF: &'static str = "retry_backoff";

/// The operation that is due in the execution of a claimed dispatch.
#[derive(Debug, PartialEq)]
pub enum ExecutionStep {
    /// Load the dispatch, to see that the claim still holds.
    VerifyOwnership,
    /// Read the dispatch epoch of the thread.
    ReadEpoch { current: RunDispatch },
    /// Mark the claimed dispatch superseded in the store, for the reason.
    SupersedeClaim { current: RunDispatch, reason: &'static str },
    /// Mark the run of a superseded dispatch cancelled.
    MarkSuperseded { dispatch: RunDispatch, reason: &'static str },
    /// Reconstruct the run request from the durable run record.
    Reconstruct { session: Session },
    /// Record the start of an execution whose request could not be reconstructed.
    RecordFailedStart { session: Session, error: MailboxError, now: u64 },
    /// Record the result of such an execution.
    RecordFailedResult { session: Session, error: MailboxError, now: u64 },
    /// Record the start of the execution.
    RecordStart { session: Session, request: RunActivation },
    /// Load the dispatch after its start could not be recorded.
    ReloadUnstarted { reason: &'static str },
    /// Publish that the run was submitted.
    PublishSubmitted { session: Session, request: RunActivation },
    /// Load the run record, for its resolution id.
    LoadRun { session: Session, request: RunActivation },
    /// Materialize the registry set that the resolution id pins.
    Materialize { session: Session, request: RunActivation, resolution_id: String },
    /// Resolve the activation in the pinned scope to a replayable plan.
    Resolve { session: Session, request: RunActivation, resolution_id: String },
    /// Run the plan.
    Execute { session: Session, request: RunActivation, plan_resolution_id: String },
    /// Record the result of the run.
    RecordResult { session: Session, end: RunEnd, now: u64 },
    /// Acknowledge the dispatch.
    Ack { recorded: bool, now: u64 },
    /// Load the dispatch after its acknowledgement failed.
    VerifyAck { now: u64 },
    /// Acknowledge the dispatch once more.
    AckAgain { now: u64 },
    /// Emit the end of a failed run to its subscribers.
    EmitFailure { session: Session, end: RunEnd, now: u64 },
    /// Return the dispatch to the queue for a later retry.
    Nack { end: RunEnd, now: u64 },
    /// Publish that the run failed.
    PublishErrored { end: RunEnd, now: u64 },
    /// Dead-letter the dispatch.
    DeadLetter { cause: GiveUp, now: u64 },
    /// Load the dispatch after it was returned to the queue.
    ReloadRescheduled,
    /// Publish that the run was rescheduled.
    PublishRescheduled { dispatch: RunDispatch },
    /// Load the dispatch after it was dead-lettered.
    ReloadDeadLetter,
    /// Mark the run of a dead-lettered dispatch failed.
    MarkDeadLetter { dispatch: RunDispatch },
    /// Release the worker and turn to the next dispatch of the thread.
    Finish,
    /// Nothing is due any more.
    Done,
}

/// The reply to the operation of a step.
#[allow(inconsistent_fields)]
#[derive(Debug, PartialEq)]
pub enum ExecutionReply {
    Dispatch(Result<Option<RunDispatch>, StorageError>),
    Epoch { result: Result<u64, StorageError>, now: u64 },
    Stored(Result<(), StorageError>),
    Activation { result: Result<RunActivation, MailboxError>, now: u64 },
    Run { result: Result<Option<RunRecord>, StorageError>, now: u64 },
    Materialized { result: Result<(), String>, now: u64 },
    Resolved { result: Result<String, String>, now: u64 },
    Ran { result: Result<AgentRunResult, AgentLoopError>, now: u64 },
    Performed,
}

/// Whether a reply is one that the operation of a step gives.
pub open spec fn answers(step: ExecutionStep, reply: ExecutionReply) -> bool {
    match step {
        ExecutionStep::VerifyOwnership
        | ExecutionStep::ReloadUnstarted { .. }
        | ExecutionStep::VerifyAck { .. }
        | ExecutionStep::ReloadRescheduled
        | ExecutionStep::ReloadDeadLetter => reply is Dispatch,
        ExecutionStep::ReadEpoch { .. } => reply is Epoch,
        ExecutionStep::SupersedeClaim { .. }
        | ExecutionStep::RecordFailedStart { .. }
        | ExecutionStep::RecordFailedResult { .. }
        | ExecutionStep::RecordStart { .. }
        | ExecutionStep::RecordResult { .. }
        | ExecutionStep::Ack { .. }
        | ExecutionStep::AckAgain { .. }
        | ExecutionStep::Nack { .. }
        | ExecutionStep::DeadLetter { .. } => reply is Stored,
        ExecutionStep::Reconstruct { .. } => reply is Activation,
        ExecutionStep::LoadRun { .. } => reply is Run,
        ExecutionStep::Materialize { .. } => reply is Materialized,
        ExecutionStep::Resolve { .. } => reply is Resolved,
        ExecutionStep::Execute { .. } => reply is Ran,
        ExecutionStep::MarkSuperseded { .. }
        | ExecutionStep::PublishSubmitted { .. }
        | ExecutionStep::EmitFailure { .. }
        | ExecutionStep::PublishErrored { .. }
        | ExecutionStep::PublishRescheduled { .. }
        | ExecutionStep::MarkDeadLetter { .. }
        | ExecutionStep::Finish => reply is Performed,
        ExecutionStep::Done => false,
    }
}

/// Whether the store still shows the dispatch as claimed with this token.
pub open spec fn owns(claim_token: String, current: RunDispatch) -> bool {
    &&& current.status == RunDispatchStatus::Claimed
    &&& current.claim_token matches Some(token) && token@ == claim_token@
}

/// Whether an acknowledgement that failed after the result was recorded may be
/// made again: the dispatch is still claimed with this token, and shows the run
/// as done.
pub open spec fn may_ack_again(claim_token: String, current: RunDispatch) -> bool {
    owns(claim_token, current) && current.run_status == Some(RunStatus::Done)
}

/// The request as it is handed to the runtime.
pub open spec fn wired_request(claim: Claim, session: Session, request: RunActivation) -> RunActivation {
    let normal = with_normalized_mode(request, false);
    RunActivation {
        trace: RunTrace {
            dispatch_id: Some(claim.dispatch.dispatch_id),
            session_id: Some(session.instance_id),
            ..normal.trace
        },
        ..normal
    }
}

/// The step after the run record was loaded for its resolution id.
pub open spec fn after_run_loaded(
    claim: Claim,
    session: Session,
    request: RunActivation,
    result: Result<Option<RunRecord>, StorageError>,
    now: u64,
) -> ExecutionStep {
    let failed = |reason: Unresolved|
        ExecutionStep::RecordResult { session, end: RunEnd::NotRun(reason), now };
    match result {
        Ok(Some(record)) => match record.resolution_id {
            Some(resolution_id) => ExecutionStep::Materialize { session, request, resolution_id },
            None => failed(Unresolved::NoResolutionId { run_id: record.run_id }),
        },
        Ok(None) => failed(Unresolved::RunDisappeared { run_id: claim.dispatch.run_id }),
        Err(error) => failed(Unresolved::RunNotLoaded { run_id: claim.dispatch.run_id, error }),
    }
}

/// The step that a reply leads to. `instance_id` names the execution that begins
/// where the claim turns out to hold.
pub open spec fn next_step(
    claim: Claim,
    step: ExecutionStep,
    reply: ExecutionReply,
    instance_id: String,
) -> ExecutionStep {
    match (step, reply) {
        (ExecutionStep::VerifyOwnership, ExecutionReply::Dispatch(Ok(Some(current)))) => {
            if owns(claim.claim_token, current) {
                ExecutionStep::ReadEpoch { current }
            } else if current.status == RunDispatchStatus::Superseded {
                ExecutionStep::MarkSuperseded {
                    dispatch: current,
                    reason: "dispatch superseded before execution start",
                }
            } else {
                ExecutionStep::Finish
            }
        },
        (ExecutionStep::ReadEpoch { current }, ExecutionReply::Epoch { result: Ok(epoch), now }) => {
            if current.dispatch_epoch < epoch {
                ExecutionStep::SupersedeClaim { current, reason: SUPERSEDED_CLAIM }
            } else {
                ExecutionStep::Reconstruct { session: Session { instance_id, started_at: now } }
            }
        },
        (ExecutionStep::SupersedeClaim { current, reason }, ExecutionReply::Stored(Ok(_))) =>
        ExecutionStep::MarkSuperseded { dispatch: current, reason },
        (ExecutionStep::Reconstruct { session }, ExecutionReply::Activation { result, now }) => {
            match result {
                Err(error) => ExecutionStep::RecordFailedStart { session, error, now },
                Ok(request) => if claim.capture && !claim.staged {
                    ExecutionStep::DeadLetter { cause: GiveUp::CaptureMisconfigured, now }
                } else {
                    ExecutionStep::RecordStart {
                        session,
                        request: wired_request(claim, session, request),
                    }
                },
            }
        },
        (ExecutionStep::RecordFailedStart { session, error, now }, ExecutionReply::Stored(result)) =>
        if result is Ok {
            ExecutionStep::RecordFailedResult { session, error, now }
        } else {
            ExecutionStep::ReloadUnstarted {
                reason: "dispatch superseded before reconstruction failure was recorded",
            }
        },
        (ExecutionStep::RecordFailedResult { error, now, .. }, ExecutionReply::Stored(_)) =>
        ExecutionStep::DeadLetter { cause: GiveUp::Reconstruction(error), now },
        (ExecutionStep::RecordStart { session, request }, ExecutionReply::Stored(result)) =>
        if result is Ok {
            ExecutionStep::PublishSubmitted { session, request }
        } else {
            ExecutionStep::ReloadUnstarted {
                reason: "dispatch superseded before runtime start was recorded",
            }
        },
        (
            ExecutionStep::ReloadUnstarted { reason },
            ExecutionReply::Dispatch(Ok(Some(latest))),
        ) => if latest.status == RunDispatchStatus::Superseded {
            ExecutionStep::MarkSuperseded { dispatch: latest, reason }
        } else {
            ExecutionStep::Finish
        },
        (ExecutionStep::PublishSubmitted { session, request }, _) => ExecutionStep::LoadRun {
            session,
            request,
        },
        (ExecutionStep::LoadRun { session, request }, ExecutionReply::Run { result, now }) =>
        after_run_loaded(claim, session, request, result, now),
        (
            ExecutionStep::Materialize { session, request, resolution_id },
            ExecutionReply::Materialized { result, now },
        ) => match result {
            Ok(_) => ExecutionStep::Resolve { session, request, resolution_id },
            Err(error) => ExecutionStep::RecordResult {
                session,
                end: RunEnd::NotRun(Unresolved::NotMaterialized { error }),
                now,
            },
        },
        (
            ExecutionStep::Resolve { session, request, .. },
            ExecutionReply::Resolved { result, now },
        ) => match result {
            Ok(plan_resolution_id) => ExecutionStep::Execute {
                session,
                request,
                plan_resolution_id,
            },
            Err(error) => ExecutionStep::RecordResult {
                session,
                end: RunEnd::NotRun(Unresolved::NotResolved { error }),
                now,
            },
        },
        (ExecutionStep::Execute { session, .. }, ExecutionReply::Ran { result, now }) =>
        ExecutionStep::RecordResult { session, end: RunEnd::Ran(result), now },
        (ExecutionStep::RecordResult { session, end, now }, ExecutionReply::Stored(result)) =>
        if end.class() == RunClass::Completed {
            ExecutionStep::Ack { recorded: result is Ok, now }
        } else {
            ExecutionStep::EmitFailure { session, end, now }
        },
        (ExecutionStep::Ack { recorded, now }, ExecutionReply::Stored(Err(_))) => if recorded {
            ExecutionStep::VerifyAck { now }
        } else {
            ExecutionStep::Finish
        },
        (ExecutionStep::VerifyAck { now }, ExecutionReply::Dispatch(Ok(Some(current)))) =>
        if may_ack_again(claim.claim_token, current) {
            ExecutionStep::AckAgain { now }
        } else {
            ExecutionStep::Finish
        },
        (ExecutionStep::EmitFailure { end, now, .. }, _) => if end.class() == RunClass::Transient {
            ExecutionStep::Nack { end, now }
        } else {
            ExecutionStep::PublishErrored { end, now }
        },
        (ExecutionStep::Nack { .. }, ExecutionReply::Stored(Ok(_))) =>
        ExecutionStep::ReloadRescheduled,
        (ExecutionStep::ReloadRescheduled, ExecutionReply::Dispatch(Ok(Some(dispatch)))) =>
        if dispatch.status == RunDispatchStatus::Queued {
            ExecutionStep::PublishRescheduled { dispatch }
        } else {
            ExecutionStep::Finish
        },
        (ExecutionStep::PublishErrored { end, now }, _) => ExecutionStep::DeadLetter {
            cause: GiveUp::RunFailed(end),
            now,
        },
        (ExecutionStep::DeadLetter { .. }, ExecutionReply::Stored(Ok(_))) =>
        ExecutionStep::ReloadDeadLetter,
        (ExecutionStep::ReloadDeadLetter, ExecutionReply::Dispatch(Ok(Some(dispatch)))) =>
        if dispatch.status == RunDispatchStatus::DeadLetter {
            ExecutionStep::MarkDeadLetter { dispatch }
        } else {
            ExecutionStep::Finish
        },
        (ExecutionStep::Finish, _) => ExecutionStep::Done,
        // Every other reply ends the execution: the worker is released.
        _ => ExecutionStep::Finish,
    }
}

/// Whether `r` records a run that failed, with the error in words.
pub open spec fn is_failed_result(
    run_id: Seq<char>,
    instance_id: Seq<char>,
    message: Seq<char>,
    r: RunDispatchResult,
) -> bool {
    &&& r.run_id@ == run_id
    &&& r.dispatch_instance_id@ == instance_id
    &&& r.status == RunStatus::Done
    &&& r.termination matches Some(TerminationReason::Error(m)) && m@ == message
    &&& r.response is None
    &&& r.error matches Some(m) && m@ == message
}

/// A claimed dispatch and the operation that is due in its execution.
#[derive(Debug, PartialEq)]
pub struct ClaimedDispatch {
    pub claim: Claim,
    pub step: ExecutionStep,
}

/// Whether an event is the one that the due step of an execution publishes, where it
/// publishes one.
pub open spec fn is_execution_event(execution: ClaimedDispatch, event: Option<EventDraft>) -> bool {
    match execution.step {
        ExecutionStep::PublishSubmitted { .. } => event matches Some(draft) && is_dispatch_event(
            draft,
            "RunSubmitted",
            execution.claim.dispatch,
            None,
            None,
            None,
        ),
        ExecutionStep::PublishErrored { end, .. } => event matches Some(draft) && is_errored_event(
            draft,
            execution.claim.dispatch,
            end.error_text(),
        ),
        ExecutionStep::PublishRescheduled { dispatch } => is_rescheduled_event(
            event,
            dispatch,
            RETRY_BACKOFF,
        ),
        _ => event is None,
    }
}

/// When the dispatch is tried again, in the step that returns it to the queue.
pub open spec fn next_try(execution: ClaimedDispatch) -> Option<u64> {
    match execution.step {
        ExecutionStep::Nack { now, .. } => Some(
            retry_time(execution.claim.config, execution.claim.dispatch.attempt_count, now),
        ),
        _ => None,
    }
}

/// The error to report in the steps that report one.
pub open spec fn told_failure(execution: ClaimedDispatch) -> Option<Seq<char>> {
    match execution.step {
        ExecutionStep::EmitFailure { end, .. }
        | ExecutionStep::Nack { end, .. }
        | ExecutionStep::PublishErrored { end, .. } => Some(end.error_text()),
        ExecutionStep::DeadLetter { cause, .. } => Some(cause.text()),
        _ => None,
    }
}

impl ClaimedDispatch {
    /// Begin the execution of a claimed dispatch.
    pub fn run_claimed_dispatch(claim: Claim) -> (r: ClaimedDispatch)
        ensures
            r == (ClaimedDispatch { claim, step: ExecutionStep::VerifyOwnership }),
    {
        ClaimedDispatch { claim, step: ExecutionStep::VerifyOwnership }
    }

    /// Whether a reply is one that the operation of the due step gives.
    pub fn expects(&self, reply: &ExecutionReply) -> (r: bool)
        ensures
            r == answers(self.step, *reply),
    {
        match (&self.step, reply) {
            (ExecutionStep::VerifyOwnership, ExecutionReply::Dispatch(_)) => true,
            (ExecutionStep::ReloadUnstarted { .. }, ExecutionReply::Dispatch(_)) => true,
            (ExecutionStep::VerifyAck { .. }, ExecutionReply::Dispatch(_)) => true,
            (ExecutionStep::ReloadRescheduled, ExecutionReply::Dispatch(_)) => true,
            (ExecutionStep::ReloadDeadLetter, ExecutionReply::Dispatch(_)) => true,
            (ExecutionStep::ReadEpoch { .. }, ExecutionReply::Epoch { .. }) => true,
            (ExecutionStep::SupersedeClaim { .. }, ExecutionReply::Stored(_)) => true,
            (ExecutionStep::RecordFailedStart { .. }, ExecutionReply::Stored(_)) => true,
            (ExecutionStep::RecordFailedResult { .. }, ExecutionReply::Stored(_)) => true,
            (ExecutionStep::RecordStart { .. }, ExecutionReply::Stored(_)) => true,
            (ExecutionStep::RecordResult { .. }, ExecutionReply::Stored(_)) => true,
            (ExecutionStep::Ack { .. }, ExecutionReply::Stored(_)) => true,
            (ExecutionStep::AckAgain { .. }, ExecutionReply::Stored(_)) => true,
            (ExecutionStep::Nack { .. }, ExecutionReply::Stored(_)) => true,
            (ExecutionStep::DeadLetter { .. }, ExecutionReply::Stored(_)) => true,
            (ExecutionStep::Reconstruct { .. }, ExecutionReply::Activation { .. }) => true,
            (ExecutionStep::LoadRun { .. }, ExecutionReply::Run { .. }) => true,
            (ExecutionStep::Materialize { .. }, ExecutionReply::Materialized { .. }) => true,
            (ExecutionStep::Resolve { .. }, ExecutionReply::Resolved { .. }) => true,
            (ExecutionStep::Execute { .. }, ExecutionReply::Ran { .. }) => true,
            (ExecutionStep::MarkSuperseded { .. }, ExecutionReply::Performed) => true,
            (ExecutionStep::PublishSubmitted { .. }, ExecutionReply::Performed) => true,
            (ExecutionStep::EmitFailure { .. }, ExecutionReply::Performed) => true,
            (ExecutionStep::PublishErrored { .. }, ExecutionReply::Performed) => true,
            (ExecutionStep::PublishRescheduled { .. }, ExecutionReply::Performed) => true,
            (ExecutionStep::MarkDeadLetter { .. }, ExecutionReply::Performed) => true,
            (ExecutionStep::Finish, ExecutionReply::Performed) => true,
            _ => false,
        }
    }

    /// The result to record on the dispatch, in the steps that record one.
    pub fn run_result(&self) -> (r: Option<RunDispatchResult>)
        ensures
            (r is Some) == (self.step is RecordResult || self.step is RecordFailedResult),
            match self.step {
                ExecutionStep::RecordResult { session, end: RunEnd::Ran(result), .. } =>
                is_run_result(
                    self.claim.dispatch.run_id@,
                    session.instance_id@,
                    result,
                    r->0,
                ),
                ExecutionStep::RecordResult { session, end, .. } => is_failed_result(
                    self.claim.dispatch.run_id@,
                    session.instance_id@,
                    end.error_text(),
                    r->0,
                ),
                ExecutionStep::RecordFailedResult { session, error, .. } => is_failed_result(
                    self.claim.dispatch.run_id@,
                    session.instance_id@,
                    error.text(),
                    r->0,
                ),
                _ => true,
            },
    {
        match &self.step {
            ExecutionStep::RecordResult { session, end, .. } => match end {
                RunEnd::Ran(result) => Some(
                    mailbox_run_result(
                        self.claim.dispatch.run_id.as_str(),
                        session.instance_id.as_str(),
                        result,
                    ),
                ),
                RunEnd::NotRun(_) => Some(
                    failed_run_result(
                        self.claim.dispatch.run_id.as_str(),
                        session.instance_id.as_str(),
                        end.to_error_text(),
                    ),
                ),
            },
            ExecutionStep::RecordFailedResult { session, error, .. } => Some(
                failed_run_result(
                    self.claim.dispatch.run_id.as_str(),
                    session.instance_id.as_str(),
                    error.to_text(),
                ),
            ),
            _ => None,
        }
    }

    /// When the dispatch is tried again, in the step that returns it to the queue.
    pub fn retry_time(&self) -> (r: Option<u64>)
        ensures
            r == next_try(*self),
            r == match self.step {
                ExecutionStep::Nack { now, .. } => Some(
                    retry_time(self.claim.config, self.claim.dispatch.attempt_count, now),
                ),
                _ => None,
            },
    {
        match &self.step {
            ExecutionStep::Nack { now, .. } => Some(
                retry_at(&self.claim.config, self.claim.dispatch.attempt_count, *now),
            ),
            _ => None,
        }
    }

    /// The event that the due step publishes, where it publishes one.
    pub fn event(&self) -> (r: Option<EventDraft>)
        ensures
            is_execution_event(*self, r),
    {
        match &self.step {
            ExecutionStep::PublishSubmitted { .. } => Some(
                record_mailbox_dispatch_event("RunSubmitted", &self.claim.dispatch),
            ),
            ExecutionStep::PublishErrored { end, .. } => Some(
                record_run_errored(&self.claim.dispatch, end.to_error_text().as_str()),
            ),
            ExecutionStep::PublishRescheduled { dispatch } => record_run_rescheduled_dispatch(
                dispatch,
                RETRY_BACKOFF,
            ),
            _ => None,
        }
    }

    /// The error to report in the steps that report one: to the subscribers, in
    /// the event, and on the dispatch that is retried or given up.
    pub fn failure_text(&self) -> (r: Option<String>)
        ensures
            match r {
                Some(m) => told_failure(*self) == Some(m@),
                None => told_failure(*self) is None,
            },
            match self.step {
                ExecutionStep::EmitFailure { end, .. }
                | ExecutionStep::Nack { end, .. }
                | ExecutionStep::PublishErrored { end, .. } => r matches Some(m) && m@
                    == end.error_text(),
                ExecutionStep::DeadLetter { cause, .. } => r matches Some(m) && m@ == cause.text(),
                _ => r is None,
            },
    {
        match &self.step {
            ExecutionStep::EmitFailure { end, .. } => Some(end.to_error_text()),
            ExecutionStep::Nack { end, .. } => Some(end.to_error_text()),
            ExecutionStep::PublishErrored { end, .. } => Some(end.to_error_text()),
            ExecutionStep::DeadLetter { cause, .. } => Some(cause.to_text()),
            _ => None,
        }
    }

    /// Take the reply to the operation that was due. An execution that begins is
    /// given a fresh id.
    pub fn advance(self, reply: ExecutionReply) -> (r: ClaimedDispatch)
        requires
            answers(self.step, reply),
        ensures
            r.claim == self.claim,
            exists|instance_id: String|
                is_uuid(instance_id@) && r.step == #[trigger] next_step(
                    self.claim,
                    self.step,
                    reply,
                    instance_id,
                ),
    {
        let instance_id = fresh_id();
        self.advance_with(reply, instance_id)
    }

    /// Take the reply to the operation that was due. An execution that begins is
    /// given `instance_id`.
    pub fn advance_with(self, reply: ExecutionReply, instance_id: String) -> (r: ClaimedDispatch)
        requires
            answers(self.step, reply),
        ensures
            r.claim == self.claim,
            r.step == next_step(self.claim, self.step, reply, instance_id),
    {
        let claim = self.claim;
        let step = match (self.step, reply) {
            (ExecutionStep::VerifyOwnership, ExecutionReply::Dispatch(result)) => match result {
                Ok(Some(current)) => if holds_claim(&claim.claim_token, &current) {
                    ExecutionStep::ReadEpoch { current }
                } else if current.status == RunDispatchStatus::Superseded {
                    ExecutionStep::MarkSuperseded {
                        dispatch: current,
                        reason: "dispatch superseded before execution start",
                    }
                } else {
                    ExecutionStep::Finish
                },
                _ => ExecutionStep::Finish,
            },
            (ExecutionStep::ReadEpoch { current }, ExecutionReply::Epoch { result, now }) =>
            match result {
                Ok(epoch) => if current.dispatch_epoch < epoch {
                    ExecutionStep::SupersedeClaim { current, reason: SUPERSEDED_CLAIM }
                } else {
                    ExecutionStep::Reconstruct {
                        session: Session { instance_id, started_at: now },
                    }
                },
                Err(_) => ExecutionStep::Finish,
            },
            (ExecutionStep::SupersedeClaim { current, reason }, ExecutionReply::Stored(result)) =>
            match result {
                Ok(_) => ExecutionStep::MarkSuperseded { dispatch: current, reason },
                Err(_) => ExecutionStep::Finish,
            },
            (
                ExecutionStep::Reconstruct { session },
                ExecutionReply::Activation { result, now },
            ) => match result {
                Err(error) => ExecutionStep::RecordFailedStart { session, error, now },
                Ok(request) => if claim.capture && !claim.staged {
                    ExecutionStep::DeadLetter { cause: GiveUp::CaptureMisconfigured, now }
                } else {
                    let mut wired = normalize_mailbox_run_mode(request, false);
                    wired.trace.dispatch_id = Some(claim.dispatch.dispatch_id.clone());
                    wired.trace.session_id = Some(session.instance_id.clone());
                    ExecutionStep::RecordStart { session, request: wired }
                },
            },
            (
                ExecutionStep::RecordFailedStart { session, error, now },
                ExecutionReply::Stored(result),
            ) => match result {
                Ok(_) => ExecutionStep::RecordFailedResult { session, error, now },
                Err(_) => ExecutionStep::ReloadUnstarted {
                    reason: "dispatch superseded before reconstruction failure was recorded",
                },
            },
            (
                ExecutionStep::RecordFailedResult { session: _, error, now },
                ExecutionReply::Stored(_),
            ) => ExecutionStep::DeadLetter { cause: GiveUp::Reconstruction(error), now },
            (ExecutionStep::RecordStart { session, request }, ExecutionReply::Stored(result)) =>
            match result {
                Ok(_) => ExecutionStep::PublishSubmitted { session, request },
                Err(_) => ExecutionStep::ReloadUnstarted {
                    reason: "dispatch superseded before runtime start was recorded",
                },
            },
            (ExecutionStep::ReloadUnstarted { reason }, ExecutionReply::Dispatch(result)) =>
            match result {
                Ok(Some(latest)) => if latest.status == RunDispatchStatus::Superseded {
                    ExecutionStep::MarkSuperseded { dispatch: latest, reason }
                } else {
                    ExecutionStep::Finish
                },
                _ => ExecutionStep::Finish,
            },
            (ExecutionStep::PublishSubmitted { session, request }, _) => ExecutionStep::LoadRun {
                session,
                request,
            },
            (ExecutionStep::LoadRun { session, request }, ExecutionReply::Run { result, now }) =>
            match result {
                Ok(Some(record)) => match record.resolution_id {
                    Some(resolution_id) => ExecutionStep::Materialize {
                        session,
                        request,
                        resolution_id,
                    },
                    None => ExecutionStep::RecordResult {
                        session,
                        end: RunEnd::NotRun(Unresolved::NoResolutionId { run_id: record.run_id }),
                        now,
                    },
                },
                Ok(None) => ExecutionStep::RecordResult {
                    session,
                    end: RunEnd::NotRun(
                        Unresolved::RunDisappeared { run_id: claim.dispatch.run_id.clone() },
                    ),
                    now,
                },
                Err(error) => ExecutionStep::RecordResult {
                    session,
                    end: RunEnd::NotRun(
                        Unresolved::RunNotLoaded { run_id: claim.dispatch.run_id.clone(), error },
                    ),
                    now,
                },
            },
            (
                ExecutionStep::Materialize { session, request, resolution_id },
                ExecutionReply::Materialized { result, now },
            ) => match result {
                Ok(_) => ExecutionStep::Resolve { session, request, resolution_id },
                Err(error) => ExecutionStep::RecordResult {
                    session,
                    end: RunEnd::NotRun(Unresolved::NotMaterialized { error }),
                    now,
                },
            },
            (
                ExecutionStep::Resolve { session, request, resolution_id: _ },
                ExecutionReply::Resolved { result, now },
            ) => match result {
                Ok(plan_resolution_id) => ExecutionStep::Execute {
                    session,
                    request,
                    plan_resolution_id,
                },
                Err(error) => ExecutionStep::RecordResult {
                    session,
                    end: RunEnd::NotRun(Unresolved::NotResolved { error }),
                    now,
                },
            },
            (
                ExecutionStep::Execute { session, request: _, plan_resolution_id: _ },
                ExecutionReply::Ran { result, now },
            ) => ExecutionStep::RecordResult { session, end: RunEnd::Ran(result), now },
            (
                ExecutionStep::RecordResult { session, end, now },
                ExecutionReply::Stored(result),
            ) => {
                if end.class_of_end() == RunClass::Completed {
                    ExecutionStep::Ack { recorded: result.is_ok(), now }
                } else {
                    ExecutionStep::EmitFailure { session, end, now }
                }
            },
            (ExecutionStep::Ack { recorded, now }, ExecutionReply::Stored(result)) => {
                if recorded && result.is_err() {
                    ExecutionStep::VerifyAck { now }
                } else {
                    ExecutionStep::Finish
                }
            },
            (ExecutionStep::VerifyAck { now }, ExecutionReply::Dispatch(result)) => match result {
                Ok(current) => match recover_completed_ack_after_result_recorded(
                    &current,
                    &claim.dispatch.dispatch_id,
                    &claim.claim_token,
                ) {
                    AckRecovery::AckAgain => ExecutionStep::AckAgain { now },
                    _ => ExecutionStep::Finish,
                },
                Err(_) => ExecutionStep::Finish,
            },
            (ExecutionStep::EmitFailure { session: _, end, now }, _) => {
                if end.class_of_end() == RunClass::Transient {
                    ExecutionStep::Nack { end, now }
                } else {
                    ExecutionStep::PublishErrored { end, now }
                }
            },
            (ExecutionStep::Nack { .. }, ExecutionReply::Stored(result)) => if result.is_ok() {
                ExecutionStep::ReloadRescheduled
            } else {
                ExecutionStep::Finish
            },
            (ExecutionStep::ReloadRescheduled, ExecutionReply::Dispatch(result)) => match result {
                Ok(Some(dispatch)) => if dispatch.status == RunDispatchStatus::Queued {
                    ExecutionStep::PublishRescheduled { dispatch }
                } else {
                    ExecutionStep::Finish
                },
                _ => ExecutionStep::Finish,
            },
            (ExecutionStep::PublishErrored { end, now }, _) => ExecutionStep::DeadLetter {
                cause: GiveUp::RunFailed(end),
                now,
            },
            (ExecutionStep::DeadLetter { .. }, ExecutionReply::Stored(result)) => if result.is_ok() {
                ExecutionStep::ReloadDeadLetter
            } else {
                ExecutionStep::Finish
            },
            (ExecutionStep::ReloadDeadLetter, ExecutionReply::Dispatch(result)) => match result {
                Ok(Some(dispatch)) => if dispatch.status == RunDispatchStatus::DeadLetter {
                    ExecutionStep::MarkDeadLetter { dispatch }
                } else {
                    ExecutionStep::Finish
                },
                _ => ExecutionStep::Finish,
            },
            (ExecutionStep::Finish, _) => ExecutionStep::Done,
            _ => ExecutionStep::Finish,
        };
        ClaimedDispatch { claim, step }
    }
}

/// Why an acknowledgement that failed is not made again.
#[derive(Debug, PartialEq)]
pub enum AckRefusal {
    Missing { dispatch_id: String },
    WrongStatus { dispatch_id: String, status: RunDispatchStatus },
    ClaimLost,
    ResultMissing { dispatch_id: String },
}

/// The name of a dispatch status.
pub open spec fn name_of_status(status: RunDispatchStatus) -> &'static str {
    match status {
        RunDispatchStatus::Queued => "Queued",
        RunDispatchStatus::Claimed => "Claimed",
        RunDispatchStatus::Acked => "Acked",
        RunDispatchStatus::Cancelled => "Cancelled",
        RunDispatchStatus::Superseded => "Superseded",
        RunDispatchStatus::DeadLetter => "DeadLetter",
    }
}

fn status_name(status: RunDispatchStatus) -> (r: &'static str)
    ensures
        r == name_of_status(status),
{
    match status {
        RunDispatchStatus::Queued => "Queued",
        RunDispatchStatus::Claimed => "Claimed",
        RunDispatchStatus::Acked => "Acked",
        RunDispatchStatus::Cancelled => "Cancelled",
        RunDispatchStatus::Superseded => "Superseded",
        RunDispatchStatus::DeadLetter => "DeadLetter",
    }
}

impl AckRefusal {
    /// The storage error that reports this refusal.
    pub fn to_storage_error(self) -> (r: StorageError)
        ensures
            match self {
                AckRefusal::Missing { dispatch_id } => r == StorageError::NotFound(dispatch_id),
                AckRefusal::WrongStatus { dispatch_id, status } => r matches
                    StorageError::Validation(m) && m@ == "cannot recover ack for dispatch '"@
                    + dispatch_id@ + "' in status "@ + name_of_status(status)@,
                AckRefusal::ClaimLost => r == (StorageError::VersionConflict {
                    expected: 0,
                    actual: 1,
                }),
                AckRefusal::ResultMissing { dispatch_id } => r matches StorageError::Validation(m)
                    && m@ == "cannot recover ack for dispatch '"@ + dispatch_id@
                    + "' without recorded Done result"@,
            },
    {
        match self {
            AckRefusal::Missing { dispatch_id } => StorageError::NotFound(dispatch_id),
            AckRefusal::WrongStatus { dispatch_id, status } => StorageError::Validation(
                join4(
                    "cannot recover ack for dispatch '",
                    dispatch_id.as_str(),
                    "' in status ",
                    status_name(status),
                ),
            ),
            AckRefusal::ClaimLost => StorageError::VersionConflict { expected: 0, actual: 1 },
            AckRefusal::ResultMissing { dispatch_id } => StorageError::Validation(
                join3(
                    "cannot recover ack for dispatch '",
                    dispatch_id.as_str(),
                    "' without recorded Done result",
                ),
            ),
        }
    }
}

/// What to do after the acknowledgement of a completed run failed.
#[derive(Debug, PartialEq)]
pub enum AckRecovery {
    AlreadyAcked,
    AckAgain,
    Refused(AckRefusal),
}

/// What the dispatch in the store says about an acknowledgement that failed.
pub open spec fn ack_recovery(
    stored: Option<RunDispatch>,
    dispatch_id: String,
    claim_token: String,
) -> AckRecovery {
    match stored {
        None => AckRecovery::Refused(AckRefusal::Missing { dispatch_id }),
        Some(d) => if d.status == RunDispatchStatus::Acked {
            AckRecovery::AlreadyAcked
        } else if d.status != RunDispatchStatus::Claimed {
            AckRecovery::Refused(AckRefusal::WrongStatus { dispatch_id, status: d.status })
        } else if !owns(claim_token, d) {
            AckRecovery::Refused(AckRefusal::ClaimLost)
        } else if d.run_status != Some(RunStatus::Done) {
            AckRecovery::Refused(AckRefusal::ResultMissing { dispatch_id })
        } else {
            AckRecovery::AckAgain
        },
    }
}

/// Decide, from the dispatch in the store, whether the acknowledgement of a run
/// whose result was recorded is made again. Only the owner of a claim on a run
/// that is recorded as done makes it again.
pub fn recover_completed_ack_after_result_recorded(
    stored: &Option<RunDispatch>,
    dispatch_id: &String,
    claim_token: &String,
) -> (r: AckRecovery)
    ensures
        r == ack_recovery(*stored, *dispatch_id, *claim_token),
        (r == AckRecovery::AckAgain) == (*stored matches Some(d) && may_ack_again(*claim_token, d)),
{
    match stored {
        None => AckRecovery::Refused(AckRefusal::Missing { dispatch_id: dispatch_id.clone() }),
        Some(d) => {
            let done = match d.run_status {
                Some(status) => status == RunStatus::Done,
                None => false,
            };
            if d.status == RunDispatchStatus::Acked {
                AckRecovery::AlreadyAcked
            } else if d.status != RunDispatchStatus::Claimed {
                AckRecovery::Refused(
                    AckRefusal::WrongStatus {
                        dispatch_id: dispatch_id.clone(),
                        status: d.status,
                    },
                )
            } else if !holds_claim(claim_token, d) {
                AckRecovery::Refused(AckRefusal::ClaimLost)
            } else if !done {
                AckRecovery::Refused(
                    AckRefusal::ResultMissing { dispatch_id: dispatch_id.clone() },
                )
            } else {
                AckRecovery::AckAgain
            }
        },
    }
}

/// Whether the store still shows the dispatch as claimed with this token.
pub fn holds_claim(claim_token: &String, current: &RunDispatch) -> (r: bool)
    ensures
        r == owns(*claim_token, *current),
{
    current.status == RunDispatchStatus::Claimed && is_text(
        &current.claim_token,
        claim_token.as_str(),
    )
}

/// An execution: the steps that were due, the replies to them, and the ids that
/// were fresh at each. The steps begin with the check of the claim, and each
/// follows from the one before.
pub open spec fn is_execution(
    claim: Claim,
    steps: Seq<ExecutionStep>,
    replies: Seq<ExecutionReply>,
    ids: Seq<String>,
) -> bool {
    &&& steps.len() == replies.len() + 1
    &&& ids.len() == replies.len()
    &&& steps[0] == ExecutionStep::VerifyOwnership
    &&& forall|i: int|
        #![trigger replies[i]]
        0 <= i < replies.len() ==> answers(steps[i], replies[i]) && steps[i + 1] == next_step(
            claim,
            steps[i],
            replies[i],
            ids[i],
        )
}

/// How many steps an execution can still take.
pub open spec fn steps_left(step: ExecutionStep) -> nat {
    match step {
        ExecutionStep::VerifyOwnership => 20,
        ExecutionStep::ReadEpoch { .. } => 19,
        ExecutionStep::SupersedeClaim { .. } => 3,
        ExecutionStep::MarkSuperseded { .. } => 2,
        ExecutionStep::Reconstruct { .. } => 18,
        ExecutionStep::RecordFailedStart { .. } => 8,
        ExecutionStep::RecordFailedResult { .. } => 7,
        ExecutionStep::RecordStart { .. } => 17,
        ExecutionStep::ReloadUnstarted { .. } => 3,
        ExecutionStep::PublishSubmitted { .. } => 16,
        ExecutionStep::LoadRun { .. } => 15,
        ExecutionStep::Materialize { .. } => 14,
        ExecutionStep::Resolve { .. } => 13,
        ExecutionStep::Execute { .. } => 12,
        ExecutionStep::RecordResult { .. } => 11,
        ExecutionStep::Ack { .. } => 4,
        ExecutionStep::VerifyAck { .. } => 3,
        ExecutionStep::AckAgain { .. } => 2,
        ExecutionStep::EmitFailure { .. } => 10,
        ExecutionStep::Nack { .. } => 4,
        ExecutionStep::PublishErrored { .. } => 9,
        ExecutionStep::DeadLetter { .. } => 6,
        ExecutionStep::ReloadRescheduled => 3,
        ExecutionStep::PublishRescheduled { .. } => 2,
        ExecutionStep::ReloadDeadLetter => 3,
        ExecutionStep::MarkDeadLetter { .. } => 2,
        ExecutionStep::Finish => 1,
        ExecutionStep::Done => 0,
    }
}

/// Every step brings the execution nearer to its end, and the worker is released
/// last: nothing but [`ExecutionStep::Finish`] leads to the end.
pub proof fn lemma_every_step_makes_progress(
    claim: Claim,
    step: ExecutionStep,
    reply: ExecutionReply,
    id: String,
)
    requires
        answers(step, reply),
    ensures
        steps_left(next_step(claim, step, reply, id)) < steps_left(step),
        (next_step(claim, step, reply, id) is Done) == (step is Finish),
{
}

/// An execution takes at most twenty replies, whatever the stores and the runtime
/// answer. It is at its end exactly when the worker was released, and the worker
/// is released exactly once: in the step before.
pub proof fn lemma_execution_ends_with_release(
    claim: Claim,
    steps: Seq<ExecutionStep>,
    replies: Seq<ExecutionReply>,
    ids: Seq<String>,
)
    requires
        is_execution(claim, steps, replies, ids),
    ensures
        replies.len() + steps_left(steps.last()) <= 20,
        steps.last() is Done ==> steps.len() > 1 && steps[steps.len() - 2] is Finish,
        forall|i: int| 0 <= i < steps.len() - 2 ==> !(#[trigger] steps[i] is Finish),
        forall|i: int| 0 <= i < steps.len() - 1 ==> !(#[trigger] steps[i] is Done),
    decreases replies.len(),
{
    if replies.len() > 0 {
        let n = replies.len() - 1;
        let before = steps.drop_last();
        let replied = replies.drop_last();
        let named = ids.drop_last();
        assert forall|i: int|
            #![trigger replied[i]]
            0 <= i < replied.len() implies answers(before[i], replied[i]) && before[i + 1]
            == next_step(claim, before[i], replied[i], named[i]) by {
            assert(replies[i] == replied[i]);
        }
        lemma_execution_ends_with_release(claim, before, replied, named);
        assert(answers(steps[n], replies[n]));
        lemma_every_step_makes_progress(claim, steps[n], replies[n], ids[n]);
        assert(before.last() == steps[n]);
        assert forall|i: int| 0 <= i < steps.len() - 2 implies !(#[trigger] steps[i] is Finish) by {
            assert(before[i] == steps[i]);
            if i == before.len() - 2 {
                assert(replied[i] == replies[i]);
                assert(answers(steps[i], replies[i]));
                if steps[i] is Finish {
                    assert(steps[i + 1] is Done);
                    assert(!answers(steps[n], replies[n]));
                }
            }
        }
        assert forall|i: int| 0 <= i < steps.len() - 1 implies !(#[trigger] steps[i] is Done) by {
            assert(before[i] == steps[i]);
        }
    }
}

/// The runtime is entered at most once in an execution, and only after these, in
/// this order: the dispatch was found claimed with this worker's token; its epoch
/// was not behind the thread's; the request was reconstructed; capture, if it is
/// on, has a staged coordinator; and the start was recorded. It is handed the
/// reconstructed request with its mode settled and this execution's ids.
pub proof fn lemma_runtime_is_entered_only_by_the_owner(
    claim: Claim,
    steps: Seq<ExecutionStep>,
    replies: Seq<ExecutionReply>,
    ids: Seq<String>,
    at: int,
)
    requires
        is_execution(claim, steps, replies, ids),
        0 <= at < steps.len(),
        steps[at] is Execute,
    ensures
        at == 8,
        replies[0] matches ExecutionReply::Dispatch(Ok(Some(current))) && owns(
            claim.claim_token,
            current,
        ) && (replies[1] matches ExecutionReply::Epoch { result: Ok(epoch), now }
            && current.dispatch_epoch >= epoch && (replies[2] matches ExecutionReply::Activation {
            result: Ok(request),
            ..
        } && steps[at] matches ExecutionStep::Execute { session, request: handed, .. }
            && session == (Session { instance_id: ids[1], started_at: now }) && handed
            == wired_request(claim, session, request))),
        !claim.capture || claim.staged,
        replies[3] matches ExecutionReply::Stored(Ok(_)),
{
    lemma_no_way_back(claim, steps, replies, ids, at);
    assert(answers(steps[at - 1], replies[at - 1]));
    assert(steps[at - 1] is Resolve);
    lemma_no_way_back(claim, steps, replies, ids, at - 1);
    assert(answers(steps[at - 2], replies[at - 2]));
    assert(steps[at - 2] is Materialize);
    lemma_no_way_back(claim, steps, replies, ids, at - 2);
    assert(answers(steps[at - 3], replies[at - 3]));
    assert(steps[at - 3] is LoadRun);
    lemma_no_way_back(claim, steps, replies, ids, at - 3);
    assert(answers(steps[at - 4], replies[at - 4]));
    assert(steps[at - 4] is PublishSubmitted);
    lemma_no_way_back(claim, steps, replies, ids, at - 4);
    assert(answers(steps[at - 5], replies[at - 5]));
    assert(steps[at - 5] is RecordStart);
    lemma_no_way_back(claim, steps, replies, ids, at - 5);
    assert(answers(steps[at - 6], replies[at - 6]));
    assert(steps[at - 6] is Reconstruct);
    lemma_no_way_back(claim, steps, replies, ids, at - 6);
    assert(answers(steps[at - 7], replies[at - 7]));
    assert(steps[at - 7] is ReadEpoch);
    lemma_no_way_back(claim, steps, replies, ids, at - 7);
    assert(answers(steps[at - 8], replies[at - 8]));
    assert(steps[at - 8] is VerifyOwnership);
    lemma_no_way_back(claim, steps, replies, ids, at - 8);
}

/// The check of the claim comes first and never again.
proof fn lemma_no_way_back(
    claim: Claim,
    steps: Seq<ExecutionStep>,
    replies: Seq<ExecutionReply>,
    ids: Seq<String>,
    at: int,
)
    requires
        is_execution(claim, steps, replies, ids),
        0 <= at < steps.len(),
    ensures
        (steps[at] is VerifyOwnership) == (at == 0),
{
    if at > 0 {
        assert(answers(steps[at - 1], replies[at - 1]));
        assert(steps[at] == next_step(claim, steps[at - 1], replies[at - 1], ids[at - 1]));
    }
}

/// What a step says of the run that led to it: a failure that is emitted did not
/// complete, one that is retried is transient, and one that is given up is
/// permanent.
pub open spec fn fits_its_run(step: ExecutionStep) -> bool {
    match step {
        ExecutionStep::EmitFailure { end, .. } => end.class() != RunClass::Completed,
        ExecutionStep::Nack { end, .. } => end.class() == RunClass::Transient,
        ExecutionStep::PublishErrored { end, .. } => end.class() == RunClass::Permanent,
        ExecutionStep::DeadLetter { cause: GiveUp::RunFailed(end), .. } => end.class()
            == RunClass::Permanent,
        _ => true,
    }
}

/// The fate of the dispatch follows the run. In every execution, it is returned
/// to the queue only after a failure that a retry may mend; it is dead-lettered
/// only where the request could not be reconstructed, capture is misconfigured,
/// or the run failed for good; it is acknowledged only after a run that counts as
/// completed, and once more only by the owner of a claim on a run recorded as
/// done.
pub proof fn lemma_fate_follows_the_run(
    claim: Claim,
    steps: Seq<ExecutionStep>,
    replies: Seq<ExecutionReply>,
    ids: Seq<String>,
    at: int,
)
    requires
        is_execution(claim, steps, replies, ids),
        0 <= at < steps.len(),
    ensures
        fits_its_run(steps[at]),
        match steps[at] {
            ExecutionStep::Ack { recorded, .. } => at > 0 && (steps[at - 1] matches
                ExecutionStep::RecordResult { end, .. } && end.class() == RunClass::Completed)
                && recorded == (replies[at - 1] matches ExecutionReply::Stored(Ok(_))),
            ExecutionStep::AckAgain { .. } => at > 0 && (replies[at - 1] matches
                ExecutionReply::Dispatch(Ok(Some(current))) && may_ack_again(
                claim.claim_token,
                current,
            )),
            ExecutionStep::DeadLetter { cause, .. } => at > 0 && match cause {
                GiveUp::Reconstruction(error) => steps[at - 1] matches
                    ExecutionStep::RecordFailedResult { error: e, .. } && e == error,
                GiveUp::CaptureMisconfigured => steps[at - 1] is Reconstruct && claim.capture
                    && !claim.staged,
                GiveUp::RunFailed(end) => steps[at - 1] matches ExecutionStep::PublishErrored {
                    end: e,
                    ..
                } && e == end,
            },
            _ => true,
        },
    decreases at,
{
    if at > 0 {
        lemma_fate_follows_the_run(claim, steps, replies, ids, at - 1);
        assert(answers(steps[at - 1], replies[at - 1]));
        assert(steps[at] == next_step(claim, steps[at - 1], replies[at - 1], ids[at - 1]));
    }
}

/// Whether the runtime's answer says that trying again may help.
pub open spec fn may_be_mended(result: Result<AgentRunResult, AgentLoopError>) -> bool {
    match result {
        Err(AgentLoopError::RuntimeError(error)) => !(error is ThreadAlreadyRunning) && !(
        error is AgentNotFound) && !(error is ResolveFailed),
        Err(AgentLoopError::StorageError(_)) => true,
        Err(AgentLoopError::InferenceFailed(_)) => true,
        Err(AgentLoopError::Inference(error)) => error is Provider || error is RateLimited
            || error is Overloaded || error is Timeout,
        _ => false,
    }
}

/// Whether the runtime's answer says that the run is over: it came to an end, or the
/// agent itself failed in it.
pub open spec fn is_over(result: Result<AgentRunResult, AgentLoopError>) -> bool {
    match result {
        Ok(_) => true,
        Err(AgentLoopError::PhaseError(_)) => true,
        Err(AgentLoopError::InvalidResume(_)) => true,
        _ => false,
    }
}

proof fn lemma_execution_goes_on(
    claim: Claim,
    steps: Seq<ExecutionStep>,
    replies: Seq<ExecutionReply>,
    ids: Seq<String>,
    i: int,
)
    requires
        is_execution(claim, steps, replies, ids),
        0 <= i < steps.len(),
        steps.last() is Done,
    ensures
        !(steps[i] is Done) ==> i < replies.len() && answers(steps[i], replies[i]) && steps[i + 1]
            == next_step(claim, steps[i], replies[i], ids[i]),
        steps[i] is Done ==> i == steps.len() - 1,
{
    if i < replies.len() {
        assert(answers(steps[i], replies[i]));
    }
}

/// What becomes of a dispatch after its run, in an execution that comes to its end. The
/// result is recorded first. A run that is over is acknowledged. One that trying again
/// may mend goes back to the queue, and is never given up. Any other is given up, and
/// never goes back. A failure is told to the run's subscribers before either.
pub proof fn lemma_run_decides_the_fate(
    claim: Claim,
    steps: Seq<ExecutionStep>,
    replies: Seq<ExecutionReply>,
    ids: Seq<String>,
    i: int,
    result: Result<AgentRunResult, AgentLoopError>,
    now: u64,
)
    requires
        is_execution(claim, steps, replies, ids),
        steps.last() is Done,
        0 <= i < replies.len(),
        replies[i] == (ExecutionReply::Ran { result, now }),
    ensures
        steps[i] matches ExecutionStep::Execute { session, .. } && steps[i + 1] == (
        ExecutionStep::RecordResult { session, end: RunEnd::Ran(result), now }),
        is_over(result) ==> steps[i + 2] is Ack && forall|j: int|
            i < j < steps.len() ==> !((#[trigger] steps[j]) is Nack) && !(steps[j] is DeadLetter),
        may_be_mended(result) ==> steps[i + 2] is EmitFailure && steps[i + 3] == (
        ExecutionStep::Nack { end: RunEnd::Ran(result), now }) && forall|j: int|
            i < j < steps.len() ==> !((#[trigger] steps[j]) is Ack) && !(steps[j] is DeadLetter),
        !is_over(result) && !may_be_mended(result) ==> steps[i + 2] is EmitFailure && steps[i + 3]
            == (ExecutionStep::PublishErrored { end: RunEnd::Ran(result), now }) && steps[i + 4]
            == (ExecutionStep::DeadLetter {
            cause: GiveUp::RunFailed(RunEnd::Ran(result)),
            now,
        }) && forall|j: int|
            i < j < steps.len() ==> !((#[trigger] steps[j]) is Ack) && !(steps[j] is Nack),
{
    assert(answers(steps[i], replies[i]));
    assert(steps[i] is Execute);
    lemma_execution_goes_on(claim, steps, replies, ids, i);
    lemma_execution_goes_on(claim, steps, replies, ids, i + 1);
    lemma_execution_goes_on(claim, steps, replies, ids, i + 2);
    if is_over(result) {
        lemma_ack_stays(claim, steps, replies, ids, i + 2);
        assert forall|j: int| i < j < steps.len() implies !((#[trigger] steps[j]) is Nack) && !(
        steps[j] is DeadLetter) by {
            if j >= i + 2 {
                assert(stays_acked(steps[j]));
            }
        }
    } else {
        lemma_execution_goes_on(claim, steps, replies, ids, i + 3);
        if may_be_mended(result) {
            lemma_nack_stays(claim, steps, replies, ids, i + 3);
            assert forall|j: int| i < j < steps.len() implies !((#[trigger] steps[j]) is Ack) && !(
            steps[j] is DeadLetter) by {
                if j >= i + 3 {
                    assert(stays_nacked(steps[j]));
                }
            }
        } else {
            lemma_dead_letter_stays(claim, steps, replies, ids, i + 4);
            assert forall|j: int| i < j < steps.len() implies !((#[trigger] steps[j]) is Ack) && !(
            steps[j] is Nack) by {
                if j >= i + 4 {
                    assert(stays_dead_lettered(steps[j]));
                }
            }
        }
    }
}

spec fn stays_acked(step: ExecutionStep) -> bool {
    step is Ack || step is VerifyAck || step is AckAgain || step is Finish || step is Done
}

spec fn stays_nacked(step: ExecutionStep) -> bool {
    step is Nack || step is ReloadRescheduled || step is PublishRescheduled || step is Finish
        || step is Done
}

spec fn stays_dead_lettered(step: ExecutionStep) -> bool {
    step is DeadLetter || step is ReloadDeadLetter || step is MarkDeadLetter || step is Finish
        || step is Done
}

proof fn lemma_ack_stays(
    claim: Claim,
    steps: Seq<ExecutionStep>,
    replies: Seq<ExecutionReply>,
    ids: Seq<String>,
    i: int,
)
    requires
        is_execution(claim, steps, replies, ids),
        0 <= i < steps.len(),
        stays_acked(steps[i]),
    ensures
        forall|j: int| i <= j < steps.len() ==> stays_acked(#[trigger] steps[j]),
    decreases steps.len() - i,
{
    if i + 1 < steps.len() {
        assert(answers(steps[i], replies[i]));
        lemma_ack_stays(claim, steps, replies, ids, i + 1);
    }
}

proof fn lemma_nack_stays(
    claim: Claim,
    steps: Seq<ExecutionStep>,
    replies: Seq<ExecutionReply>,
    ids: Seq<String>,
    i: int,
)
    requires
        is_execution(claim, steps, replies, ids),
        0 <= i < steps.len(),
        stays_nacked(steps[i]),
    ensures
        forall|j: int| i <= j < steps.len() ==> stays_nacked(#[trigger] steps[j]),
    decreases steps.len() - i,
{
    if i + 1 < steps.len() {
        assert(answers(steps[i], replies[i]));
        lemma_nack_stays(claim, steps, replies, ids, i + 1);
    }
}

proof fn lemma_dead_letter_stays(
    claim: Claim,
    steps: Seq<ExecutionStep>,
    replies: Seq<ExecutionReply>,
    ids: Seq<String>,
    i: int,
)
    requires
        is_execution(claim, steps, replies, ids),
        0 <= i < steps.len(),
        stays_dead_lettered(steps[i]),
    ensures
        forall|j: int| i <= j < steps.len() ==> stays_dead_lettered(#[trigger] steps[j]),
    decreases steps.len() - i,
{
    if i + 1 < steps.len() {
        assert(answers(steps[i], replies[i]));
        lemma_dead_letter_stays(claim, steps, replies, ids, i + 1);
    }
}

/// Whether the store shows a dispatch as this worker's: claimed, with the worker's token.
pub open spec fn shows_claim(reply: ExecutionReply, token: Seq<char>) -> bool {
    reply matches ExecutionReply::Dispatch(Ok(Some(current))) && current.status
        == RunDispatchStatus::Claimed && (current.claim_token matches Some(own) && own@ == token)
}

/// A worker that has lost its claim, or cannot tell, does nothing to the dispatch: it is
/// not started, acknowledged, returned or given up. Where the dispatch was superseded
/// its run is marked so, and nothing else is.
pub proof fn lemma_lost_claim_changes_nothing(
    claim: Claim,
    steps: Seq<ExecutionStep>,
    replies: Seq<ExecutionReply>,
    ids: Seq<String>,
)
    requires
        is_execution(claim, steps, replies, ids),
        steps.last() is Done,
        !shows_claim(replies[0], claim.claim_token@),
    ensures
        match replies[0] {
            ExecutionReply::Dispatch(Ok(Some(current))) => if current.status
                == RunDispatchStatus::Superseded {
                &&& steps.len() == 4
                &&& steps[1] matches ExecutionStep::MarkSuperseded { dispatch, .. } && dispatch
                    == current
                &&& steps[2] is Finish
            } else {
                steps.len() == 3 && steps[1] is Finish
            },
            _ => steps.len() == 3 && steps[1] is Finish,
        },
{
    lemma_execution_goes_on(claim, steps, replies, ids, 0);
    lemma_execution_goes_on(claim, steps, replies, ids, 1);
    lemma_execution_goes_on(claim, steps, replies, ids, 2);
    if steps.len() > 3 {
        lemma_execution_goes_on(claim, steps, replies, ids, 3);
    }
}

/// A worker that holds the claim superseded its dispatch exactly where the thread has
/// moved on to a later epoch, and starts nothing then; where the epoch cannot be read it
/// leaves the dispatch to its lease.
pub proof fn lemma_outdated_dispatch_is_superseded(
    claim: Claim,
    steps: Seq<ExecutionStep>,
    replies: Seq<ExecutionReply>,
    ids: Seq<String>,
    current: RunDispatch,
)
    requires
        is_execution(claim, steps, replies, ids),
        steps.last() is Done,
        shows_claim(replies[0], claim.claim_token@),
        replies[0] == ExecutionReply::Dispatch(Ok(Some(current))),
    ensures
        replies[1] matches ExecutionReply::Epoch { result, now } && match result {
            Err(_) => steps[2] is Finish,
            Ok(epoch) => if current.dispatch_epoch < epoch {
                &&& steps[2] matches ExecutionStep::SupersedeClaim { current: c, reason } && c
                    == current && reason@ == "claimed dispatch superseded before execution start"@
                &&& replies[2] matches ExecutionReply::Stored(Ok(_)) ==> steps[3] matches
                    ExecutionStep::MarkSuperseded { dispatch, .. } && dispatch == current
                &&& replies[2] matches ExecutionReply::Stored(Err(_)) ==> steps[3] is Finish
            } else {
                steps[2] == (ExecutionStep::Reconstruct {
                    session: Session { instance_id: ids[1], started_at: now },
                })
            },
        },
{
    lemma_execution_goes_on(claim, steps, replies, ids, 0);
    lemma_execution_goes_on(claim, steps, replies, ids, 1);
    lemma_execution_goes_on(claim, steps, replies, ids, 2);
}

/// What stands in the way of a run decides what is told of it: a request that could not
/// be reconstructed, a capture that is not set up, a start that was not recorded, a run
/// record that is gone or not resolved. Where nothing does, the runtime is entered with
/// the plan that was resolved.
pub proof fn lemma_owner_runs_its_dispatch(
    claim: Claim,
    steps: Seq<ExecutionStep>,
    replies: Seq<ExecutionReply>,
    ids: Seq<String>,
    i: int,
    session: Session,
)
    requires
        is_execution(claim, steps, replies, ids),
        steps.last() is Done,
        0 <= i < steps.len(),
        steps[i] == (ExecutionStep::Reconstruct { session }),
    ensures
        replies[i] matches ExecutionReply::Activation { result, now } && match result {
            Err(error) => {
                &&& steps[i + 1] == (ExecutionStep::RecordFailedStart { session, error, now })
                &&& replies[i + 1] matches ExecutionReply::Stored(Ok(_)) ==> steps[i + 2] == (
                ExecutionStep::RecordFailedResult { session, error, now }) && steps[i + 3] == (
                ExecutionStep::DeadLetter { cause: GiveUp::Reconstruction(error), now })
                &&& replies[i + 1] matches ExecutionReply::Stored(Err(_)) ==> steps[i + 2]
                    is ReloadUnstarted
            },
            Ok(request) => if claim.capture && !claim.staged {
                steps[i + 1] == (ExecutionStep::DeadLetter {
                    cause: GiveUp::CaptureMisconfigured,
                    now,
                })
            } else {
                &&& steps[i + 1] matches ExecutionStep::RecordStart { session: s, request: handed }
                    && s == session && keeps_request(claim, session, request, handed)
                &&& replies[i + 1] matches ExecutionReply::Stored(Err(_)) ==> steps[i + 2]
                    is ReloadUnstarted
                &&& replies[i + 1] matches ExecutionReply::Stored(Ok(_)) ==> steps[i + 2]
                    is PublishSubmitted && steps[i + 3] is LoadRun && (
                replies[i + 3] matches ExecutionReply::Run { result: loaded, now } && match loaded {
                    Ok(Some(record)) => match record.resolution_id {
                        Some(pinned) => steps[i + 4] matches ExecutionStep::Materialize {
                            resolution_id,
                            ..
                        } && resolution_id == pinned,
                        None => steps[i + 4] is RecordResult,
                    },
                    _ => steps[i + 4] is RecordResult,
                })
            },
        },
{
    lemma_execution_goes_on(claim, steps, replies, ids, i);
    lemma_execution_goes_on(claim, steps, replies, ids, i + 1);
    lemma_execution_goes_on(claim, steps, replies, ids, i + 2);
    if !(steps[i + 2] is Done) {
        lemma_execution_goes_on(claim, steps, replies, ids, i + 3);
    }
}

/// Whether a request is handed on as it was, with the ids of this execution and a mode
/// that is settled.
pub open spec fn keeps_request(
    claim: Claim,
    session: Session,
    request: RunActivation,
    handed: RunActivation,
) -> bool {
    &&& handed.intent == request.intent
    &&& handed.messages == request.messages
    &&& handed.options == request.options
    &&& handed.control == request.control
    &&& handed.persistence == request.persistence
    &&& handed.trace.origin == request.trace.origin
    &&& handed.trace.parent_run_id == request.trace.parent_run_id
    &&& handed.trace.parent_thread_id == request.trace.parent_thread_id
    &&& handed.trace.transport_request_id == request.trace.transport_request_id
    &&& handed.trace.dispatch_id == Some(claim.dispatch.dispatch_id)
    &&& handed.trace.session_id == Some(session.instance_id)
    &&& request.trace.run_mode != RunMode::Foreground ==> handed.trace.run_mode
        == request.trace.run_mode
    &&& request.trace.run_mode == RunMode::Foreground && (
    request.control.seeded_decisions@.len() > 0 || request.intent.kind is HitlResume)
        ==> handed.trace.run_mode == RunMode::Resume
}

/// A resolution id that is pinned is materialized and resolved before the runtime is
/// entered, and the runtime runs the plan that it was resolved to. Where either fails the
/// run is recorded as failed with that error, and is given up.
pub proof fn lemma_pinned_plan_is_run(
    claim: Claim,
    steps: Seq<ExecutionStep>,
    replies: Seq<ExecutionReply>,
    ids: Seq<String>,
    i: int,
    session: Session,
    request: RunActivation,
    pinned: String,
)
    requires
        is_execution(claim, steps, replies, ids),
        steps.last() is Done,
        0 <= i < steps.len(),
        steps[i] == (ExecutionStep::Materialize { session, request, resolution_id: pinned }),
    ensures
        replies[i] matches ExecutionReply::Materialized { result, now } && match result {
            Err(error) => steps[i + 1] == (ExecutionStep::RecordResult {
                session,
                end: RunEnd::NotRun(Unresolved::NotMaterialized { error }),
                now,
            }),
            Ok(_) => {
                &&& steps[i + 1] == (ExecutionStep::Resolve {
                    session,
                    request,
                    resolution_id: pinned,
                })
                &&& replies[i + 1] matches ExecutionReply::Resolved { result, now } && match result {
                    Err(error) => steps[i + 2] == (ExecutionStep::RecordResult {
                        session,
                        end: RunEnd::NotRun(Unresolved::NotResolved { error }),
                        now,
                    }),
                    Ok(plan) => steps[i + 2] == (ExecutionStep::Execute {
                        session,
                        request,
                        plan_resolution_id: plan,
                    }),
                }
            },
        },
{
    lemma_execution_goes_on(claim, steps, replies, ids, i);
    lemma_execution_goes_on(claim, steps, replies, ids, i + 1);
}

/// A run that could not be resolved is given up like one that failed for good: its end is
/// recorded and told, and the dispatch is dead-lettered with the reason.
pub proof fn lemma_unresolved_run_is_given_up(
    claim: Claim,
    steps: Seq<ExecutionStep>,
    replies: Seq<ExecutionReply>,
    ids: Seq<String>,
    i: int,
    session: Session,
    reason: Unresolved,
    now: u64,
)
    requires
        is_execution(claim, steps, replies, ids),
        steps.last() is Done,
        0 <= i < steps.len(),
        steps[i] == (ExecutionStep::RecordResult { session, end: RunEnd::NotRun(reason), now }),
    ensures
        steps[i + 1] is EmitFailure,
        steps[i + 2] == (ExecutionStep::PublishErrored { end: RunEnd::NotRun(reason), now }),
        steps[i + 3] == (ExecutionStep::DeadLetter {
            cause: GiveUp::RunFailed(RunEnd::NotRun(reason)),
            now,
        }),
        RunEnd::NotRun(reason).error_text() == "agent resolution failed: "@ + reason.message(),
        reason matches Unresolved::NotResolved { error } ==> reason.message() == error@,
        reason matches Unresolved::NotMaterialized { error } ==> reason.message() == error@,
{
    lemma_execution_goes_on(claim, steps, replies, ids, i);
    lemma_execution_goes_on(claim, steps, replies, ids, i + 1);
    lemma_execution_goes_on(claim, steps, replies, ids, i + 2);
}

/// An acknowledgement that failed is made once more exactly where the result was
/// recorded and the store still shows this worker's claim on a run that is done. A
/// dispatch that went back to the queue is told as rescheduled exactly where the store
/// shows it queued, and one that was given up marks its run exactly where the store
/// shows it dead-lettered.
pub proof fn lemma_end_of_a_dispatch_is_seen_in_the_store(
    claim: Claim,
    steps: Seq<ExecutionStep>,
    replies: Seq<ExecutionReply>,
    ids: Seq<String>,
    i: int,
)
    requires
        is_execution(claim, steps, replies, ids),
        steps.last() is Done,
        0 <= i < steps.len(),
    ensures
        steps[i] matches ExecutionStep::Ack { recorded, .. } ==> {
            &&& replies[i] matches ExecutionReply::Stored(Ok(_)) ==> steps[i + 1] is Finish
            &&& (replies[i] matches ExecutionReply::Stored(Err(_))) && recorded ==> steps[i + 1]
                is VerifyAck && ((shows_claim(replies[i + 1], claim.claim_token@) && (
            replies[i + 1] matches ExecutionReply::Dispatch(Ok(Some(current)))
                && current.run_status == Some(RunStatus::Done))) == (steps[i + 2] is AckAgain))
            &&& (replies[i] matches ExecutionReply::Stored(Err(_))) && !recorded ==> steps[i + 1]
                is Finish
        },
        steps[i] is Nack ==> {
            &&& replies[i] matches ExecutionReply::Stored(Err(_)) ==> steps[i + 1] is Finish
            &&& replies[i] matches ExecutionReply::Stored(Ok(_)) ==> steps[i + 1]
                is ReloadRescheduled && ((
            replies[i + 1] matches ExecutionReply::Dispatch(Ok(Some(shown))) && shown.status
                == RunDispatchStatus::Queued && steps[i + 2] == (
            ExecutionStep::PublishRescheduled { dispatch: shown })) || (!(
            replies[i + 1] matches ExecutionReply::Dispatch(Ok(Some(shown))) && shown.status
                == RunDispatchStatus::Queued) && steps[i + 2] is Finish))
        },
        steps[i] is DeadLetter ==> {
            &&& replies[i] matches ExecutionReply::Stored(Err(_)) ==> steps[i + 1] is Finish
            &&& replies[i] matches ExecutionReply::Stored(Ok(_)) ==> steps[i + 1]
                is ReloadDeadLetter && ((
            replies[i + 1] matches ExecutionReply::Dispatch(Ok(Some(shown))) && shown.status
                == RunDispatchStatus::DeadLetter && steps[i + 2] == (
            ExecutionStep::MarkDeadLetter { dispatch: shown })) || (!(
            replies[i + 1] matches ExecutionReply::Dispatch(Ok(Some(shown))) && shown.status
                == RunDispatchStatus::DeadLetter) && steps[i + 2] is Finish))
        },
{
    lemma_execution_goes_on(claim, steps, replies, ids, i);
    if i + 1 < steps.len() {
        lemma_execution_goes_on(claim, steps, replies, ids, i + 1);
    }
}

/// Where the run record cannot be had or names no resolution, the run is recorded as one
/// that could not be resolved, for that reason in words.
pub proof fn lemma_missing_resolution_is_told(
    claim: Claim,
    steps: Seq<ExecutionStep>,
    replies: Seq<ExecutionReply>,
    ids: Seq<String>,
    i: int,
    session: Session,
    request: RunActivation,
)
    requires
        is_execution(claim, steps, replies, ids),
        steps.last() is Done,
        0 <= i < steps.len(),
        steps[i] == (ExecutionStep::LoadRun { session, request }),
    ensures
        replies[i] matches ExecutionReply::Run { result, now } && match result {
            Ok(Some(record)) => match record.resolution_id {
                Some(resolution_id) => steps[i + 1] == (ExecutionStep::Materialize {
                    session,
                    request,
                    resolution_id,
                }),
                None => steps[i + 1] matches ExecutionStep::RecordResult {
                    session: s,
                    end,
                    now: n,
                } && s == session && n == now && end.error_text() == "agent resolution failed: "@ + (
                "persistent dispatch for run '"@ + record.run_id@ + "' has no resolution id"@),
            },
            Ok(None) => steps[i + 1] matches ExecutionStep::RecordResult {
                session: s,
                end,
                now: n,
            } && s == session && n == now && end.error_text() == "agent resolution failed: "@ + (
            "persistent dispatch run '"@ + claim.dispatch.run_id@
                + "' disappeared before resolution"@),
            Err(error) => steps[i + 1] matches ExecutionStep::RecordResult {
                session: s,
                end,
                now: n,
            } && s == session && n == now && end.error_text() == "agent resolution failed: "@ + (
            "failed to load run '"@ + claim.dispatch.run_id@
                + "' before persistent dispatch resolution: "@ + error.text()),
        },
{
    lemma_execution_goes_on(claim, steps, replies, ids, i);
}

/// A run that is over is acknowledged with the time of its end, and it is noted whether
/// its result could be recorded.
pub proof fn lemma_ack_notes_whether_the_result_was_recorded(
    claim: Claim,
    steps: Seq<ExecutionStep>,
    replies: Seq<ExecutionReply>,
    ids: Seq<String>,
    i: int,
    session: Session,
    result: Result<AgentRunResult, AgentLoopError>,
    now: u64,
)
    requires
        is_execution(claim, steps, replies, ids),
        steps.last() is Done,
        0 <= i < steps.len(),
        steps[i] == (ExecutionStep::RecordResult { session, end: RunEnd::Ran(result), now }),
        is_over(result),
    ensures
        replies[i] matches ExecutionReply::Stored(stored) && steps[i + 1] == (ExecutionStep::Ack {
            recorded: stored is Ok,
            now,
        }),
{
    lemma_execution_goes_on(claim, steps, replies, ids, i);
}

/// An execution whose start could not be recorded leaves the dispatch as it is. Where
/// that was superseded its run is marked so.
pub proof fn lemma_unrecorded_start_leaves_the_dispatch(
    claim: Claim,
    steps: Seq<ExecutionStep>,
    replies: Seq<ExecutionReply>,
    ids: Seq<String>,
    i: int,
)
    requires
        is_execution(claim, steps, replies, ids),
        steps.last() is Done,
        0 <= i < steps.len(),
        steps[i] is ReloadUnstarted,
    ensures
        (replies[i] matches ExecutionReply::Dispatch(Ok(Some(latest))) && latest.status
            == RunDispatchStatus::Superseded) ==> (
        steps[i + 1] matches ExecutionStep::MarkSuperseded { dispatch, .. } && replies[i]
            == ExecutionReply::Dispatch(Ok(Some(dispatch)))) && steps[i + 2] is Finish,
        !(replies[i] matches ExecutionReply::Dispatch(Ok(Some(latest))) && latest.status
            == RunDispatchStatus::Superseded) ==> steps[i + 1] is Finish,
{
    lemma_execution_goes_on(claim, steps, replies, ids, i);
    lemma_execution_goes_on(claim, steps, replies, ids, i + 1);
}

/// The reason for which a dispatch is given up is the error of its run, or that of the
/// reconstruction.
pub proof fn lemma_given_up_for_the_error(cause: GiveUp)
    ensures
        cause matches GiveUp::Reconstruction(error) ==> cause.text() == error.text(),
        cause == GiveUp::CaptureMisconfigured ==> cause.text()
            == "runtime event capture requires staged commit coordinator"@,
        cause matches GiveUp::RunFailed(RunEnd::Ran(Err(error))) ==> cause.text() == error.text(),
        cause matches GiveUp::RunFailed(RunEnd::NotRun(reason)) ==> cause.text()
            == "agent resolution failed: "@ + reason.message(),
{
}

/// An acknowledgement that failed is made again exactly where the dispatch is claimed
/// with the worker's token and its run is recorded as done; it is not needed exactly
/// where the dispatch is acknowledged already; and it is refused in every other case, for
/// what is missing.
pub proof fn lemma_ack_is_recovered_by_the_owner_alone(
    stored: Option<RunDispatch>,
    dispatch_id: String,
    claim_token: String,
)
    ensures
        match stored {
            None => ack_recovery(stored, dispatch_id, claim_token) == AckRecovery::Refused(
                AckRefusal::Missing { dispatch_id },
            ),
            Some(d) => {
                let held = d.claim_token is Some && d.claim_token->0@ == claim_token@;
                let done = d.run_status == Some(RunStatus::Done);
                match ack_recovery(stored, dispatch_id, claim_token) {
                    AckRecovery::AlreadyAcked => d.status == RunDispatchStatus::Acked,
                    AckRecovery::AckAgain => d.status == RunDispatchStatus::Claimed && held && done,
                    AckRecovery::Refused(AckRefusal::Missing { .. }) => false,
                    AckRecovery::Refused(AckRefusal::WrongStatus { dispatch_id: id, status }) => id
                        == dispatch_id && d.status == status && status != RunDispatchStatus::Claimed
                        && status != RunDispatchStatus::Acked,
                    AckRecovery::Refused(AckRefusal::ClaimLost) => d.status
                        == RunDispatchStatus::Claimed && !held,
                    AckRecovery::Refused(AckRefusal::ResultMissing { dispatch_id: id }) => id
                        == dispatch_id && d.status == RunDispatchStatus::Claimed && held && !done,
                }
            },
        },
{
}

/// A dispatch that goes back to the queue is tried again after the delay for the attempts
/// that it has had, and no other step sets a time.
pub proof fn lemma_returned_dispatch_waits_for_its_delay(execution: ClaimedDispatch)
    ensures
        next_try(execution) is Some <==> execution.step is Nack,
        execution.step matches ExecutionStep::Nack { now, .. } ==> {
            let due = now + retry_delay_of(
                execution.claim.config,
                execution.claim.dispatch.attempt_count,
            );
            next_try(execution) matches Some(at) && at == (if due <= u64::MAX {
                due
            } else {
                u64::MAX as int
            })
        },
{
}

/// The error of a run that failed is told to its subscribers, in its event and on its
/// dispatch alike, in the words of the error; no other step tells one.
pub proof fn lemma_failure_is_told_in_its_words(execution: ClaimedDispatch, error: AgentLoopError)
    ensures
        execution.step matches ExecutionStep::EmitFailure { end, .. } ==> (end == RunEnd::Ran(
            Err(error),
        ) ==> told_failure(execution) == Some(error.text())),
        execution.step matches ExecutionStep::Nack { end, .. } ==> (end == RunEnd::Ran(Err(error))
            ==> told_failure(execution) == Some(error.text())),
        execution.step matches ExecutionStep::PublishErrored { end, .. } ==> (end == RunEnd::Ran(
            Err(error),
        ) ==> told_failure(execution) == Some(error.text())),
        execution.step matches ExecutionStep::DeadLetter { cause, .. } ==> (cause
            == GiveUp::RunFailed(RunEnd::Ran(Err(error))) ==> told_failure(execution) == Some(
            error.text(),
        )),
        told_failure(execution) is Some <==> execution.step is EmitFailure || execution.step is Nack
            || execution.step is PublishErrored || execution.step is DeadLetter,
{
}

/// What is recorded of a run that failed before its loop says that it is done, with the
/// error, and nothing else.
pub proof fn lemma_failed_result_tells_the_error(
    run_id: Seq<char>,
    instance_id: Seq<char>,
    message: Seq<char>,
    r: RunDispatchResult,
)
    requires
        is_failed_result(run_id, instance_id, message, r),
    ensures
        r.run_id@ == run_id,
        r.dispatch_instance_id@ == instance_id,
        r.status == RunStatus::Done,
        r.response is None,
        r.error is Some && r.error->0@ == message,
        r.termination matches Some(TerminationReason::Error(text)) && text@ == message,
{
}

/// The name of a status tells it apart from the others.
pub proof fn lemma_statuses_are_told_by_name(status: RunDispatchStatus, other: RunDispatchStatus)
    ensures
        name_of_status(status)@ == (match status {
            RunDispatchStatus::Queued => "Queued"@,
            RunDispatchStatus::Claimed => "Claimed"@,
            RunDispatchStatus::Acked => "Acked"@,
            RunDispatchStatus::Cancelled => "Cancelled"@,
            RunDispatchStatus::Superseded => "Superseded"@,
            RunDispatchStatus::DeadLetter => "DeadLetter"@,
        }),
        name_of_status(status)@ == name_of_status(other)@ ==> status == other,
{
    reveal_strlit("Queued");
    reveal_strlit("Claimed");
    reveal_strlit("Acked");
    reveal_strlit("Cancelled");
    reveal_strlit("Superseded");
    reveal_strlit("DeadLetter");
    assert("Queued"@.len() == 6);
    assert("Claimed"@.len() == 7);
    assert("Acked"@.len() == 5);
    assert("Cancelled"@.len() == 9);
    assert("Superseded"@.len() == 10 && "Superseded"@[0] == 'S');
    assert("DeadLetter"@.len() == 10 && "DeadLetter"@[0] == 'D');
}

/// The execution of a claim begins with a look at who owns the dispatch.
pub proof fn lemma_execution_begins_with_the_owner(claim: Claim, execution: ClaimedDispatch)
    requires
        call_ensures(ClaimedDispatch::run_claimed_dispatch, (claim,), execution),
    ensures
        execution.claim == claim,
        is_execution(claim, seq![execution.step], Seq::empty(), Seq::empty()),
{
}

/// Why an acknowledgement cannot be recovered is told as what the store would say of it: a
/// dispatch that is gone is not found, a claim that was lost is a conflict, and all else
/// is not valid.
pub proof fn lemma_refusal_is_told_as_the_store_would(refusal: AckRefusal, error: StorageError)
    requires
        call_ensures(AckRefusal::to_storage_error, (refusal,), error),
    ensures
        refusal is Missing <==> error is NotFound,
        refusal is ClaimLost <==> error is VersionConflict,
        refusal is WrongStatus || refusal is ResultMissing <==> error is Validation,
        refusal matches AckRefusal::Missing { dispatch_id } ==> error == StorageError::NotFound(
            dispatch_id,
        ),
{
}

} // verus!
