//! What the agent runtime answers, and what the mailbox makes of it.

use vstd::prelude::*;

use crate::activation::RunOrigin;
use crate::dispatch::RunDispatch;
use crate::run::{RunDispatchResult, RunStatus, TerminationReason};
use crate::text::join2;

verus! {

/// The result of a run that reached its loop.
#[derive(Debug, PartialEq)]
pub struct AgentRunResult {
    pub run_id: String,
    pub response: String,
    pub termination: TerminationReason,
    pub steps: u64,
}

/// An error of the runtime, before or around the loop.
#[derive(Debug, PartialEq)]
pub enum RuntimeError {
    ThreadAlreadyRunning { thread_id: String },
    AgentNotFound { agent_id: String },
    ResolveFailed { message: String },
    Other { message: String },
}

/// An error of a model call. `retry_after` is in milliseconds.
#[derive(Debug, PartialEq)]
pub enum InferenceExecutionError {
    Provider(String),
    RateLimited { message: String, retry_after: Option<u64> },
    Overloaded { message: String, retry_after: Option<u64> },
    Timeout(String),
    ContextOverflow(String),
    InvalidRequest(String),
    Unauthorized(String),
    ModelNotFound(String),
    ContentFiltered(String),
    AllModelsUnavailable,
    Cancelled,
}

impl InferenceExecutionError {
    /// Whether trying again may help.
    pub open spec fn retryable(self) -> bool {
        ||| self is Provider
        ||| self is RateLimited
        ||| self is Overloaded
        ||| self is Timeout
    }

    /// Whether trying again may help.
    pub fn is_retryable(&self) -> (r: bool)
        ensures
            r == self.retryable(),
    {
        match self {
            InferenceExecutionError::Provider(_) => true,
            InferenceExecutionError::RateLimited { .. } => true,
            InferenceExecutionError::Overloaded { .. } => true,
            InferenceExecutionError::Timeout(_) => true,
            _ => false,
        }
    }

    /// A rate limit that tells no time to wait.
    pub fn rate_limited(message: String) -> (r: Self)
        ensures
            r == (InferenceExecutionError::RateLimited { message, retry_after: None }),
    {
        InferenceExecutionError::RateLimited { message, retry_after: None }
    }

    /// An overload that tells no time to wait.
    pub fn overloaded(message: String) -> (r: Self)
        ensures
            r == (InferenceExecutionError::Overloaded { message, retry_after: None }),
    {
        InferenceExecutionError::Overloaded { message, retry_after: None }
    }

    /// The error in words.
    pub open spec fn text(self) -> Seq<char> {
        match self {
            InferenceExecutionError::Provider(m) => "provider error: "@ + m@,
            InferenceExecutionError::RateLimited { message, .. } => "rate limited: "@ + message@,
            InferenceExecutionError::Overloaded { message, .. } => "overloaded: "@ + message@,
            InferenceExecutionError::Timeout(m) => "timeout: "@ + m@,
            InferenceExecutionError::ContextOverflow(m) => "context overflow: "@ + m@,
            InferenceExecutionError::InvalidRequest(m) => "invalid request: "@ + m@,
            InferenceExecutionError::Unauthorized(m) => "unauthorized: "@ + m@,
            InferenceExecutionError::ModelNotFound(m) => "model not found: "@ + m@,
            InferenceExecutionError::ContentFiltered(m) => "content filtered: "@ + m@,
            InferenceExecutionError::AllModelsUnavailable => "all models unavailable"@,
            InferenceExecutionError::Cancelled => "cancelled"@,
        }
    }

    /// The error in words.
    pub fn to_text(&self) -> (r: String)
        ensures
            r@ == self.text(),
    {
        match self {
            InferenceExecutionError::Provider(m) => join2("provider error: ", m.as_str()),
            InferenceExecutionError::RateLimited { message, .. } => join2(
                "rate limited: ",
                message.as_str(),
            ),
            InferenceExecutionError::Overloaded { message, .. } => join2(
                "overloaded: ",
                message.as_str(),
            ),
            InferenceExecutionError::Timeout(m) => join2("timeout: ", m.as_str()),
            InferenceExecutionError::ContextOverflow(m) => join2("context overflow: ", m.as_str()),
            InferenceExecutionError::InvalidRequest(m) => join2("invalid request: ", m.as_str()),
            InferenceExecutionError::Unauthorized(m) => join2("unauthorized: ", m.as_str()),
            InferenceExecutionError::ModelNotFound(m) => join2("model not found: ", m.as_str()),
            InferenceExecutionError::ContentFiltered(m) => join2("content filtered: ", m.as_str()),
            InferenceExecutionError::AllModelsUnavailable => "all models unavailable".to_owned(),
            InferenceExecutionError::Cancelled => "cancelled".to_owned(),
        }
    }
}

/// Why a run failed.
#[derive(Debug, PartialEq)]
pub enum AgentLoopError {
    RuntimeError(RuntimeError),
    StorageError(String),
    Inference(InferenceExecutionError),
    InferenceFailed(String),
    InvalidActivation(String),
    PhaseError(String),
    InvalidResume(String),
}

impl From<InferenceExecutionError> for AgentLoopError {
    fn from(error: InferenceExecutionError) -> (r: AgentLoopError) {
        AgentLoopError::Inference(error)
    }
}

impl vstd::std_specs::convert::FromSpecImpl<InferenceExecutionError> for AgentLoopError {
    open spec fn obeys_from_spec() -> bool {
        true
    }

    open spec fn from_spec(error: InferenceExecutionError) -> AgentLoopError {
        AgentLoopError::Inference(error)
    }
}

impl AgentLoopError {
    /// The error in words.
    pub open spec fn text(self) -> Seq<char> {
        match self {
            AgentLoopError::RuntimeError(error) => match error {
                RuntimeError::ThreadAlreadyRunning { thread_id } => "thread already running: "@
                    + thread_id@,
                RuntimeError::AgentNotFound { agent_id } => "agent not found: "@ + agent_id@,
                RuntimeError::ResolveFailed { message } => "agent resolution failed: "@ + message@,
                RuntimeError::Other { message } => message@,
            },
            AgentLoopError::StorageError(m) => "storage error: "@ + m@,
            AgentLoopError::Inference(error) => "inference failed: "@ + error.text(),
            AgentLoopError::InferenceFailed(m) => "inference failed: "@ + m@,
            AgentLoopError::InvalidActivation(m) => "invalid activation: "@ + m@,
            AgentLoopError::PhaseError(m) => "phase error: "@ + m@,
            AgentLoopError::InvalidResume(m) => "invalid resume: "@ + m@,
        }
    }

    /// The error in words.
    pub fn to_text(&self) -> (r: String)
        ensures
            r@ == self.text(),
    {
        match self {
            AgentLoopError::RuntimeError(error) => match error {
                RuntimeError::ThreadAlreadyRunning { thread_id } => join2(
                    "thread already running: ",
                    thread_id.as_str(),
                ),
                RuntimeError::AgentNotFound { agent_id } => join2(
                    "agent not found: ",
                    agent_id.as_str(),
                ),
                RuntimeError::ResolveFailed { message } => join2(
                    "agent resolution failed: ",
                    message.as_str(),
                ),
                RuntimeError::Other { message } => message.clone(),
            },
            AgentLoopError::StorageError(m) => join2("storage error: ", m.as_str()),
            AgentLoopError::Inference(error) => join2(
                "inference failed: ",
                error.to_text().as_str(),
            ),
            AgentLoopError::InferenceFailed(m) => join2("inference failed: ", m.as_str()),
            AgentLoopError::InvalidActivation(m) => join2("invalid activation: ", m.as_str()),
            AgentLoopError::PhaseError(m) => join2("phase error: ", m.as_str()),
            AgentLoopError::InvalidResume(m) => join2("invalid resume: ", m.as_str()),
        }
    }
}

/// What becomes of a dispatch after its run: acknowledged, retried, or given up.
#[derive(Clone, Copy, Debug, PartialEq, Eq, Structural)]
pub enum RunClass {
    Completed,
    Transient,
    Permanent,
}

/// The class of a run's result. An error that a retry cannot mend is permanent;
/// a failure of the agent itself, inside the loop, counts as completed.
pub open spec fn class_of(result: Result<AgentRunResult, AgentLoopError>) -> RunClass {
    match result {
        Ok(_) => RunClass::Completed,
        Err(AgentLoopError::RuntimeError(RuntimeError::Other { .. })) => RunClass::Transient,
        Err(AgentLoopError::RuntimeError(_)) => RunClass::Permanent,
        Err(AgentLoopError::StorageError(_)) => RunClass::Transient,
        Err(AgentLoopError::Inference(error)) => if error.retryable() {
            RunClass::Transient
        } else {
            RunClass::Permanent
        },
        Err(AgentLoopError::InferenceFailed(_)) => RunClass::Transient,
        Err(AgentLoopError::InvalidActivation(_)) => RunClass::Permanent,
        Err(AgentLoopError::PhaseError(_)) => RunClass::Completed,
        Err(AgentLoopError::InvalidResume(_)) => RunClass::Completed,
    }
}

/// The class of a run's result.
pub fn run_class(result: &Result<AgentRunResult, AgentLoopError>) -> (r: RunClass)
    ensures
        r == class_of(*result),
{
    match result {
        Ok(_) => RunClass::Completed,
        Err(error) => match error {
            AgentLoopError::RuntimeError(inner) => match inner {
                RuntimeError::ThreadAlreadyRunning { .. } => RunClass::Permanent,
                RuntimeError::AgentNotFound { .. } => RunClass::Permanent,
                RuntimeError::ResolveFailed { .. } => RunClass::Permanent,
                RuntimeError::Other { .. } => RunClass::Transient,
            },
            AgentLoopError::StorageError(_) => RunClass::Transient,
            AgentLoopError::Inference(inner) => if inner.is_retryable() {
                RunClass::Transient
            } else {
                RunClass::Permanent
            },
            AgentLoopError::InferenceFailed(_) => RunClass::Transient,
            AgentLoopError::InvalidActivation(_) => RunClass::Permanent,
            AgentLoopError::PhaseError(_) => RunClass::Completed,
            AgentLoopError::InvalidResume(_) => RunClass::Completed,
        },
    }
}

/// The outcome of a run for its dispatch, with the error in words.
#[derive(Debug, PartialEq)]
pub enum MailboxRunOutcome {
    Completed,
    TransientError(String),
    PermanentError(String),
}

impl MailboxRunOutcome {
    /// The class of this outcome.
    pub open spec fn class(self) -> RunClass {
        match self {
            MailboxRunOutcome::Completed => RunClass::Completed,
            MailboxRunOutcome::TransientError(_) => RunClass::Transient,
            MailboxRunOutcome::PermanentError(_) => RunClass::Permanent,
        }
    }

    /// The error of this outcome in words, where it has one.
    pub open spec fn message(self) -> Option<Seq<char>> {
        match self {
            MailboxRunOutcome::Completed => None,
            MailboxRunOutcome::TransientError(m) => Some(m@),
            MailboxRunOutcome::PermanentError(m) => Some(m@),
        }
    }

    /// The label of this outcome in metrics.
    pub fn metric_label(&self) -> (r: &'static str)
        ensures
            r == match self.class() {
                RunClass::Completed => "completed",
                RunClass::Transient => "transient_error",
                RunClass::Permanent => "permanent_error",
            },
    {
        match self {
            MailboxRunOutcome::Completed => "completed",
            MailboxRunOutcome::TransientError(_) => "transient_error",
            MailboxRunOutcome::PermanentError(_) => "permanent_error",
        }
    }
}

/// Classify a run's result for acknowledging, retrying or giving up its dispatch.
pub fn classify_error(result: &Result<AgentRunResult, AgentLoopError>) -> (r: MailboxRunOutcome)
    ensures
        r.class() == class_of(*result),
        r.class() != RunClass::Completed ==> (result matches Err(error) && r.message() == Some(
            error.text(),
        )),
{
    match result {
        Ok(_) => MailboxRunOutcome::Completed,
        Err(error) => match run_class(result) {
            RunClass::Completed => MailboxRunOutcome::Completed,
            RunClass::Transient => MailboxRunOutcome::TransientError(error.to_text()),
            RunClass::Permanent => MailboxRunOutcome::PermanentError(error.to_text()),
        },
    }
}

/// Every error of a model call is classified as its own recoverability says,
/// whatever its message or the time it asks to wait: it is retried exactly where
/// it is retryable, and never taken for a completed run.
pub proof fn lemma_inference_errors_classify_by_retryability(error: InferenceExecutionError)
    ensures
        class_of(Err(AgentLoopError::Inference(error))) == (if error.retryable() {
            RunClass::Transient
        } else {
            RunClass::Permanent
        }),
{
}

/// A run is given up for good exactly where its thread runs already, its agent is not
/// known or cannot be resolved, its activation is not valid, or the model call fails in a
/// way that the same call would fail again.
pub proof fn lemma_only_hopeless_runs_are_given_up(result: Result<AgentRunResult, AgentLoopError>)
    ensures
        class_of(result) == RunClass::Permanent <==> {
            ||| result matches Err(AgentLoopError::RuntimeError(
                RuntimeError::ThreadAlreadyRunning { .. },
            ))
            ||| result matches Err(AgentLoopError::RuntimeError(
                RuntimeError::AgentNotFound { .. },
            ))
            ||| result matches Err(AgentLoopError::RuntimeError(
                RuntimeError::ResolveFailed { .. },
            ))
            ||| result matches Err(AgentLoopError::InvalidActivation(_))
            ||| result matches Err(AgentLoopError::Inference(error)) && !(error is Provider)
                && !(error is RateLimited) && !(error is Overloaded) && !(error is Timeout)
        },
{
}

/// A run is tried again exactly where the runtime or a store failed in passing, or the
/// model call failed for the provider's load, limits or time, or without telling why.
pub proof fn lemma_passing_failures_are_tried_again(result: Result<AgentRunResult, AgentLoopError>)
    ensures
        class_of(result) == RunClass::Transient <==> {
            ||| result matches Err(AgentLoopError::RuntimeError(RuntimeError::Other { .. }))
            ||| result matches Err(AgentLoopError::StorageError(_))
            ||| result matches Err(AgentLoopError::InferenceFailed(_))
            ||| result matches Err(AgentLoopError::Inference(
                InferenceExecutionError::Provider(_),
            ))
            ||| result matches Err(AgentLoopError::Inference(
                InferenceExecutionError::RateLimited { .. },
            ))
            ||| result matches Err(AgentLoopError::Inference(
                InferenceExecutionError::Overloaded { .. },
            ))
            ||| result matches Err(AgentLoopError::Inference(
                InferenceExecutionError::Timeout(_),
            ))
        },
{
}

/// A run that came to its end, and one that the agent itself failed in, count as
/// completed: neither is tried again nor given up.
pub proof fn lemma_agents_own_failures_are_final(result: Result<AgentRunResult, AgentLoopError>)
    ensures
        class_of(result) == RunClass::Completed <==> {
            ||| result is Ok
            ||| result matches Err(AgentLoopError::PhaseError(_))
            ||| result matches Err(AgentLoopError::InvalidResume(_))
        },
{
}

/// An error in words ends with the words of its cause, and errors of different kinds
/// begin differently.
pub proof fn lemma_error_text_names_the_cause(message: String, inner: InferenceExecutionError)
    ensures
        AgentLoopError::RuntimeError(RuntimeError::Other { message }).text() == message@,
        AgentLoopError::RuntimeError(
            RuntimeError::ThreadAlreadyRunning { thread_id: message },
        ).text() == "thread already running: "@ + message@,
        AgentLoopError::RuntimeError(RuntimeError::AgentNotFound { agent_id: message }).text()
            == "agent not found: "@ + message@,
        AgentLoopError::RuntimeError(RuntimeError::ResolveFailed { message }).text()
            == "agent resolution failed: "@ + message@,
        AgentLoopError::StorageError(message).text() == "storage error: "@ + message@,
        AgentLoopError::InferenceFailed(message).text() == "inference failed: "@ + message@,
        AgentLoopError::InvalidActivation(message).text() == "invalid activation: "@ + message@,
        AgentLoopError::PhaseError(message).text() == "phase error: "@ + message@,
        AgentLoopError::InvalidResume(message).text() == "invalid resume: "@ + message@,
        AgentLoopError::Inference(inner).text() == "inference failed: "@ + inner.text(),
        InferenceExecutionError::Provider(message).text() == "provider error: "@ + message@,
        InferenceExecutionError::Timeout(message).text() == "timeout: "@ + message@,
        InferenceExecutionError::Unauthorized(message).text() == "unauthorized: "@ + message@,
{
}

/// What is recorded of a run on its dispatch says how the run ended: an error is on
/// record exactly where the run ended in one, a response only where there was one, and a
/// run that failed outside its loop is recorded as done under the dispatch's run.
pub proof fn lemma_recorded_result_tells_the_end(
    run_id: Seq<char>,
    instance_id: Seq<char>,
    result: Result<AgentRunResult, AgentLoopError>,
    r: RunDispatchResult,
)
    requires
        is_run_result(run_id, instance_id, result, r),
    ensures
        r.dispatch_instance_id@ == instance_id,
        r.error is Some <==> (result is Err || (result matches Ok(run) && run.termination is Error)),
        r.termination is Some,
        result matches Ok(run) ==> {
            &&& r.run_id == run.run_id
            &&& r.termination == Some(run.termination)
            &&& r.response is Some <==> run.response@.len() > 0
            &&& r.response matches Some(response) ==> response == run.response
            &&& run.termination is NaturalEnd ==> r.status == RunStatus::Done
            &&& run.termination is Cancelled ==> r.status == RunStatus::Done
            &&& run.termination is Error ==> r.status == RunStatus::Done
            &&& run.termination matches TerminationReason::Other { status, .. } ==> r.status
                == status
        },
        result matches Err(error) ==> {
            &&& r.run_id@ == run_id
            &&& r.status == RunStatus::Done
            &&& r.response is None
            &&& r.error matches Some(message) && message@ == error.text()
            &&& r.termination matches Some(TerminationReason::Error(message)) && message@
                == error.text()
        },
{
}

/// Whether `r` is the record of a run's result on its dispatch.
pub open spec fn is_run_result(
    run_id: Seq<char>,
    dispatch_instance_id: Seq<char>,
    result: Result<AgentRunResult, AgentLoopError>,
    r: RunDispatchResult,
) -> bool {
    &&& r.dispatch_instance_id@ == dispatch_instance_id
    &&& match result {
        Ok(run) => {
            &&& r.run_id == run.run_id
            &&& r.status == run.termination.run_status()
            &&& r.termination == Some(run.termination)
            &&& r.response == (if run.response@.len() > 0 {
                Some(run.response)
            } else {
                None
            })
            &&& r.error == match run.termination {
                TerminationReason::Error(message) => Some(message),
                _ => None,
            }
        },
        Err(error) => {
            &&& r.run_id@ == run_id
            &&& r.status == RunStatus::Done
            &&& r.termination matches Some(TerminationReason::Error(m)) && m@ == error.text()
            &&& r.response is None
            &&& r.error matches Some(m) && m@ == error.text()
        },
    }
}

/// The record of a run's result on its dispatch. An error is recorded as a run
/// that is done.
pub fn mailbox_run_result(
    run_id: &str,
    dispatch_instance_id: &str,
    result: &Result<AgentRunResult, AgentLoopError>,
) -> (r: RunDispatchResult)
    ensures
        is_run_result(run_id@, dispatch_instance_id@, *result, r),
{
    match result {
        Ok(run) => RunDispatchResult {
            run_id: run.run_id.clone(),
            dispatch_instance_id: dispatch_instance_id.to_owned(),
            status: run.termination.to_run_status(),
            termination: Some(run.termination.clone()),
            response: if run.response.as_str().is_empty() {
                None
            } else {
                Some(run.response.clone())
            },
            error: match &run.termination {
                TerminationReason::Error(message) => Some(message.clone()),
                _ => None,
            },
        },
        Err(error) => failed_run_result(run_id, dispatch_instance_id, error.to_text()),
    }
}

/// The record of a run that failed before or around its loop.
pub fn failed_run_result(run_id: &str, dispatch_instance_id: &str, message: String) -> (r:
    RunDispatchResult)
    ensures
        r.run_id@ == run_id@,
        r.dispatch_instance_id@ == dispatch_instance_id@,
        r.status == RunStatus::Done,
        r.termination == Some(TerminationReason::Error(message)),
        r.response is None,
        r.error == Some(message),
{
    RunDispatchResult {
        run_id: run_id.to_owned(),
        dispatch_instance_id: dispatch_instance_id.to_owned(),
        status: RunStatus::Done,
        termination: Some(TerminationReason::Error(message.clone())),
        response: None,
        error: Some(message),
    }
}

/// The identity of a run in the events that the mailbox emits for it.
#[derive(Debug, PartialEq)]
pub struct RunIdentity {
    pub thread_id: String,
    pub parent_thread_id: Option<String>,
    pub run_id: String,
    pub parent_run_id: Option<String>,
    pub agent_id: String,
    pub origin: RunOrigin,
    pub dispatch_id: Option<String>,
    pub session_id: Option<String>,
}

/// The identity of a run that the mailbox itself finishes: of the dispatch's
/// thread, internal, with neither parents nor an agent.
pub fn mailbox_run_identity(dispatch: &RunDispatch, run_id: &str, dispatch_instance_id: &str) -> (r:
    RunIdentity)
    ensures
        r.thread_id == dispatch.thread_id,
        r.parent_thread_id is None,
        r.run_id@ == run_id@,
        r.parent_run_id is None,
        r.agent_id@.len() == 0,
        r.origin == RunOrigin::Internal,
        r.dispatch_id == Some(dispatch.dispatch_id),
        r.session_id matches Some(s) && s@ == dispatch_instance_id@,
{
    RunIdentity {
        thread_id: dispatch.thread_id.clone(),
        parent_thread_id: None,
        run_id: run_id.to_owned(),
        parent_run_id: None,
        agent_id: String::new(),
        origin: RunOrigin::Internal,
        dispatch_id: Some(dispatch.dispatch_id.clone()),
        session_id: Some(dispatch_instance_id.to_owned()),
    }
}

/// The outcome of a run is of the class that it is named for, and an outcome with an error
/// tells it.
pub proof fn lemma_outcome_tells_class_and_error(message: String)
    ensures
        MailboxRunOutcome::Completed.class() == RunClass::Completed,
        MailboxRunOutcome::TransientError(message).class() == RunClass::Transient,
        MailboxRunOutcome::PermanentError(message).class() == RunClass::Permanent,
        MailboxRunOutcome::Completed.message() is None,
        MailboxRunOutcome::TransientError(message).message() == Some(message@),
        MailboxRunOutcome::PermanentError(message).message() == Some(message@),
{
}

/// A run is known to the runtime by its thread and by the ids it was given, with its
/// dispatch and its session; the runtime started it, and no other run did.
pub proof fn lemma_run_is_known_by_its_dispatch(
    dispatch: RunDispatch,
    run_id: &str,
    session_id: &str,
    identity: RunIdentity,
)
    requires
        call_ensures(mailbox_run_identity, (&dispatch, run_id, session_id), identity),
    ensures
        identity.thread_id == dispatch.thread_id,
        identity.run_id@ == run_id@,
        identity.dispatch_id == Some(dispatch.dispatch_id),
        identity.session_id is Some && identity.session_id->0@ == session_id@,
        identity.origin == RunOrigin::Internal,
        identity.parent_run_id is None && identity.parent_thread_id is None,
{
}

} // verus!
