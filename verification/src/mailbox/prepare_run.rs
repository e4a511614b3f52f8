//! Preparation of a run for dispatch: the durable run record, and the messages
//! that trigger it, are committed before a dispatch is queued.

use vstd::prelude::*;

use crate::activation::{
    copy_decisions, resumed_run, RunActivation, RunIntent, RunKind, RunMode, RunPersistence,
    RunTrace,
};
use crate::delivery::DeliveryBoundary;
use crate::error::{Fault, StorageError, MAX_APPEND_ATTEMPTS};
use crate::ids::{fresh_id, is_uuid};
use crate::json::copy_json;
use crate::mailbox::checkpoint::CommitOutcome;
use crate::mailbox::helpers::{
    build_run_input, have_ids, ids_of, message_ids, normalize_message_ids,
};
use crate::mailbox::live_delivery::{
    next_waiting_step, waiting_answers, WaitingLookup, WaitingReply, WaitingStep,
};
use crate::mailbox::pending_delivery::{
    delivery_mode_for_dispatch, dispatch_delivery_mode, prepare_pending_messages_for_dispatch,
    staging_boundary,
};
use crate::mailbox::pending_freeze::{
    freeze_answers, freeze_follows, Append, FreezeReply, FreezeScope, FreezeStep, PendingFreeze,
};
use crate::mailbox::recovery::is_prepared;
use crate::message::{copy_text, Message};
use crate::run::{
    whole_log_input, RunActivationSnapshot, RunInputSnapshot, RunInputView, RunRecord, RunStatus,
};
use crate::text::{blank, is_blank, same_text};

verus! {

/// A text that is there and not blank.
pub open spec fn given_text(t: Option<String>) -> Option<String> {
    match t {
        Some(s) => if is_blank(s@) {
            None
        } else {
            Some(s)
        },
        None => None,
    }
}

/// A text that is there and not blank, or else the other.
pub open spec fn text_or(t: Option<String>, other: String) -> String {
    match given_text(t) {
        Some(s) => s,
        None => other,
    }
}

fn pick_text(t: Option<String>, other: String) -> (r: String)
    ensures
        r == text_or(t, other),
{
    match t {
        Some(s) => if blank(s.as_str()) {
            other
        } else {
            s
        },
        None => other,
    }
}

/// The request with a dispatch id: the one it has, or `fresh` where that is
/// missing or blank.
pub open spec fn with_dispatch_hint(request: RunActivation, fresh: String) -> RunActivation {
    RunActivation {
        persistence: RunPersistence {
            dispatch_id_hint: Some(text_or(request.persistence.dispatch_id_hint, fresh)),
            ..request.persistence
        },
        ..request
    }
}

/// Give a request a dispatch id: the one it has, or `fresh` where that is missing
/// or blank.
pub fn dispatch_id_hint_or(request: RunActivation, fresh: String) -> (r: RunActivation)
    ensures
        r == with_dispatch_hint(request, fresh),
{
    let mut r = request;
    let hint = copy_text(&r.persistence.dispatch_id_hint);
    r.persistence.dispatch_id_hint = Some(pick_text(hint, fresh));
    r
}

/// Give a request that has no dispatch id a fresh one.
pub fn ensure_dispatch_id_hint(request: RunActivation) -> (r: RunActivation)
    ensures
        exists|fresh: String|
            is_uuid(fresh@) && r == #[trigger] with_dispatch_hint(request, fresh),
{
    let fresh = fresh_id();
    dispatch_id_hint_or(request, fresh)
}

/// The ids of a run that is being prepared, and of its dispatch.
#[derive(Debug, PartialEq)]
pub struct RunIds {
    pub run_id: String,
    pub dispatch_id: String,
}

/// The run that a request is for: the one it continues, or the one chosen for it,
/// where that is not blank, or else a fresh one.
pub open spec fn chosen_run(request: RunActivation, fresh: String) -> String {
    match resumed_run(request) {
        Some(run_id) => text_or(Some(run_id), fresh),
        None => text_or(request.persistence.run_id_hint, fresh),
    }
}

/// The request once its ids are settled. A request that continues a run keeps its
/// run hint as it is.
pub open spec fn with_chosen_ids(request: RunActivation, fresh: RunIds) -> RunActivation {
    let named = if resumed_run(request) is None {
        RunActivation {
            persistence: RunPersistence {
                run_id_hint: Some(chosen_run(request, fresh.run_id)),
                ..request.persistence
            },
            ..request
        }
    } else {
        request
    };
    with_dispatch_hint(named, fresh.dispatch_id)
}

/// The ids that a request settles on.
pub open spec fn chosen_ids(request: RunActivation, fresh: RunIds) -> RunIds {
    RunIds {
        run_id: chosen_run(request, fresh.run_id),
        dispatch_id: text_or(request.persistence.dispatch_id_hint, fresh.dispatch_id),
    }
}

fn choose_ids(request: RunActivation, fresh: RunIds) -> (r: (RunActivation, RunIds))
    ensures
        r.0 == with_chosen_ids(request, fresh),
        r.1 == chosen_ids(request, fresh),
{
    let RunIds { run_id: fresh_run, dispatch_id: fresh_dispatch } = fresh;
    let resumed = request.resume_run_id();
    let resumes = resumed.is_some();
    let wanted = match resumed {
        Some(run_id) => Some(run_id),
        None => copy_text(&request.persistence.run_id_hint),
    };
    let run_id = pick_text(wanted, fresh_run);
    let dispatch_id = pick_text(copy_text(&request.persistence.dispatch_id_hint), fresh_dispatch);
    let mut r = request;
    if !resumes {
        r.persistence.run_id_hint = Some(run_id.clone());
    }
    r.persistence.dispatch_id_hint = Some(dispatch_id.clone());
    (r, RunIds { run_id, dispatch_id })
}

/// The scope in which a request is resolved.
#[derive(Debug, PartialEq)]
pub enum ResolutionScope {
    Pinned(String),
    Live,
}

/// The scope in which a request is resolved: pinned to the resolution it names;
/// live where it brings a resolver of its own; else pinned to the run.
pub open spec fn scope_of(request: RunActivation, run_id: String) -> ResolutionScope {
    match request.persistence.resolution_id_hint {
        Some(resolution_id) => ResolutionScope::Pinned(resolution_id),
        None => if request.has_run_resolver {
            ResolutionScope::Live
        } else {
            ResolutionScope::Pinned(run_id)
        },
    }
}

/// The scope in which a request is resolved.
pub fn resolve_replayable_resolution_id(request: &RunActivation, run_id: &String) -> (r:
    ResolutionScope)
    ensures
        r == scope_of(*request, *run_id),
{
    match &request.persistence.resolution_id_hint {
        Some(resolution_id) => ResolutionScope::Pinned(resolution_id.clone()),
        None => if request.has_run_resolver {
            ResolutionScope::Live
        } else {
            ResolutionScope::Pinned(run_id.clone())
        },
    }
}

/// Whether a run of the store may be dispatched to a thread: it belongs to it,
/// and is new or waits for input.
pub open spec fn opening_fault(
    existing: RunRecord,
    run_id: String,
    thread_id: String,
) -> Option<Fault> {
    if existing.thread_id@ != thread_id@ {
        Some(Fault::RunOfOtherThread { run_id, owner: existing.thread_id, thread_id })
    } else if existing.status != RunStatus::Created && !existing.resumable() {
        Some(Fault::RunNotOpen { run_id })
    } else {
        None
    }
}

/// The record of a run that is dispatched again: a new dispatch, and no request
/// in the earlier notation.
pub open spec fn reopened(existing: RunRecord, dispatch_id: String) -> RunRecord {
    RunRecord { request: None, dispatch_id: Some(dispatch_id), ..existing }
}

/// The agent of a new run: the one asked for, or the thread's last one, or the
/// default.
pub open spec fn agent_for(request: RunActivation, previous: Option<RunRecord>) -> Seq<char> {
    match request.intent.agent_id {
        Some(agent_id) => agent_id@,
        None => match previous {
            Some(run) => if run.status != RunStatus::Created && !is_blank(run.agent_id@) {
                run.agent_id@
            } else {
                "default"@
            },
            None => "default"@,
        },
    }
}

/// The state that a new run starts with: that of the thread's last run, if it
/// ever ran.
pub open spec fn inherited_state(previous: Option<RunRecord>) -> Option<serde_json::Value> {
    match previous {
        Some(run) => if run.status != RunStatus::Created {
            run.state
        } else {
            None
        },
        None => None,
    }
}

/// The record of a new run.
pub open spec fn created_record(
    ids: RunIds,
    thread_id: String,
    agent_id: String,
    request: RunActivation,
    resolution_id: String,
    state: Option<serde_json::Value>,
    now: u64,
) -> RunRecord {
    RunRecord {
        run_id: ids.run_id,
        thread_id,
        agent_id,
        parent_run_id: request.trace.parent_run_id,
        resolution_id: Some(resolution_id),
        activation: None,
        request: None,
        input: None,
        output: None,
        status: RunStatus::Created,
        termination_reason: None,
        final_output: None,
        error_payload: None,
        dispatch_id: Some(ids.dispatch_id),
        session_id: None,
        transport_request_id: request.trace.transport_request_id,
        waiting: None,
        outcome: None,
        created_at: now,
        started_at: None,
        finished_at: None,
        updated_at: now,
        steps: 0,
        input_tokens: 0,
        output_tokens: 0,
        state,
    }
}

fn create_record(
    ids: &RunIds,
    thread_id: &String,
    agent_id: String,
    request: &RunActivation,
    resolution_id: &String,
    state: Option<serde_json::Value>,
    now: u64,
) -> (r: RunRecord)
    ensures
        r == created_record(*ids, *thread_id, agent_id, *request, *resolution_id, state, now),
{
    RunRecord {
        run_id: ids.run_id.clone(),
        thread_id: thread_id.clone(),
        agent_id,
        parent_run_id: copy_text(&request.trace.parent_run_id),
        resolution_id: Some(resolution_id.clone()),
        activation: None,
        request: None,
        input: None,
        output: None,
        status: RunStatus::Created,
        termination_reason: None,
        final_output: None,
        error_payload: None,
        dispatch_id: Some(ids.dispatch_id.clone()),
        session_id: None,
        transport_request_id: copy_text(&request.trace.transport_request_id),
        waiting: None,
        outcome: None,
        created_at: now,
        started_at: None,
        finished_at: None,
        updated_at: now,
        steps: 0,
        input_tokens: 0,
        output_tokens: 0,
        state,
    }
}

/// Whether a snapshot keeps what a request asks for, with the given input and
/// resolution.
pub open spec fn is_activation_snapshot(
    snapshot: RunActivationSnapshot,
    request: RunActivation,
    input: RunInputView,
    resolution_id: String,
) -> bool {
    &&& snapshot.intent == request.intent
    &&& snapshot.options.same(request.options)
    &&& snapshot.trace == request.trace
    &&& snapshot.seeded_decisions@ == request.control.seeded_decisions@
    &&& snapshot.input@ == input
    &&& snapshot.resolution_id == Some(resolution_id)
}

/// The snapshot of a request for replay.
pub fn run_activation_snapshot(
    request: &RunActivation,
    input: RunInputSnapshot,
    resolution_id: String,
) -> (r: RunActivationSnapshot)
    ensures
        is_activation_snapshot(r, *request, input@, resolution_id),
        r.input == input,
{
    RunActivationSnapshot {
        intent: request.intent.clone(),
        options: request.options.clone(),
        trace: request.trace.clone(),
        input,
        seeded_decisions: copy_decisions(&request.control.seeded_decisions),
        resolution_id: Some(resolution_id),
    }
}

/// The input of a run before anything is known of it.
pub open spec fn no_input() -> RunInputView {
    RunInputView {
        thread_id: seq![],
        range: None,
        trigger_message_ids: seq![],
        selected_message_ids: seq![],
        context_policy: None,
        compacted_snapshot_id: None,
    }
}

/// The input of a run before anything is known of it.
pub fn empty_input() -> (r: RunInputSnapshot)
    ensures
        r@ == no_input(),
{
    let r = RunInputSnapshot {
        thread_id: String::new(),
        range: None,
        trigger_message_ids: Vec::new(),
        selected_message_ids: Vec::new(),
        context_policy: None,
        compacted_snapshot_id: None,
    };
    assert(r@ =~= no_input());
    r
}

/// Whether a record is `base` with the input of a run that appends `messages` to
/// a log of `before` messages.
pub open spec fn is_append_record(
    record: RunRecord,
    base: RunRecord,
    request: RunActivation,
    thread_id: Seq<char>,
    before: nat,
    messages: Seq<Message>,
    resolution_id: String,
    now: u64,
) -> bool {
    let input = whole_log_input(thread_id, (before + messages.len()) as u64, ids_of(messages));
    &&& record == (RunRecord {
        activation: record.activation,
        input: record.input,
        updated_at: now,
        ..base
    })
    &&& record.activation matches Some(snapshot) && is_activation_snapshot(
        snapshot,
        request,
        input,
        resolution_id,
    )
    &&& record.input matches Some(recorded) && recorded@ == input
}

/// The record that a resolution is for: one of the store, or one to be created.
#[derive(Debug, PartialEq)]
pub enum RecordPlan {
    Existing { record: RunRecord },
    New { agent_id: String, state: Option<serde_json::Value> },
}

/// The thread that a run is prepared on, and whether it has a pending partition.
#[derive(Debug, PartialEq)]
pub struct PrepareScope {
    pub thread_id: String,
    pub has_pending_store: bool,
}

/// The operation that is due in the preparation of a run.
#[derive(Debug, PartialEq)]
pub enum PrepareStep {
    /// Look for a waiting run of the thread that new input may continue.
    FindWaiting { messages: Vec<Message>, lookup: WaitingLookup },
    /// Load the latest run of the thread.
    LatestRun { ids: RunIds, messages: Vec<Message> },
    /// Load the run that is to be dispatched.
    LoadRun { ids: RunIds, messages: Vec<Message>, previous: Option<RunRecord> },
    /// Resolve the request to a replayable plan in the scope.
    Resolve { ids: RunIds, messages: Vec<Message>, plan: RecordPlan, scope: ResolutionScope },
    /// Stage the messages as pending, and freeze what is due.
    Freeze { ids: RunIds, boundary: DeliveryBoundary, freeze: PendingFreeze },
    /// Load the committed messages of the thread.
    LoadCommitted {
        ids: RunIds,
        messages: Vec<Message>,
        record: RunRecord,
        resolution_id: String,
        attempts: usize,
    },
    /// Append the messages and write the record, if the log still has as many
    /// messages as `existing`.
    Commit {
        ids: RunIds,
        messages: Vec<Message>,
        record: RunRecord,
        resolution_id: String,
        attempts: usize,
        existing: Vec<Message>,
        first_seq: u64,
        last_seq: u64,
    },
    /// Publish the checkpoint events of the new messages.
    Publish {
        ids: RunIds,
        record: RunRecord,
        log: Vec<Message>,
        first_seq: u64,
        last_seq: u64,
    },
    /// Refresh the worker's cache of the thread.
    RefreshCache { ids: RunIds, record: RunRecord, log: Vec<Message> },
    /// The preparation is over: the run that is ready for dispatch, or the fault.
    Done { outcome: Result<String, Fault> },
}

/// The reply to the operation of a step. Times are in seconds.
#[allow(inconsistent_fields)]
#[derive(Debug, PartialEq)]
pub enum PrepareReply {
    Waiting(WaitingReply),
    Run(Result<Option<RunRecord>, StorageError>),
    Resolved { result: Result<String, String>, now: u64 },
    Freezing(FreezeReply),
    Messages { result: Result<Option<Vec<Message>>, StorageError>, now: u64 },
    Committed(CommitOutcome),
    Performed,
}

/// Whether a reply is one that the operation of a step gives. The log with the
/// new messages can be counted.
pub open spec fn prepare_answers(step: PrepareStep, reply: PrepareReply) -> bool {
    match step {
        PrepareStep::FindWaiting { lookup, .. } => reply matches PrepareReply::Waiting(inner)
            && waiting_answers(lookup.step, inner),
        PrepareStep::LatestRun { .. } => reply is Run,
        PrepareStep::LoadRun { .. } => reply is Run,
        PrepareStep::Resolve { .. } => reply is Resolved,
        PrepareStep::Freeze { freeze, .. } => reply matches PrepareReply::Freezing(inner)
            && freeze_answers(freeze.scope, freeze.step, inner),
        PrepareStep::LoadCommitted { messages, .. } => match reply {
            PrepareReply::Messages { result: Ok(Some(existing)), .. } => existing@.len()
                + messages@.len() < u64::MAX,
            PrepareReply::Messages { .. } => messages@.len() < u64::MAX,
            _ => false,
        },
        PrepareStep::Commit { .. } => reply is Committed,
        PrepareStep::Publish { .. } => reply is Performed,
        PrepareStep::RefreshCache { .. } => reply is Performed,
        PrepareStep::Done { .. } => false,
    }
}

/// A run that is being prepared: the request as it stands, and the operation that
/// is due.
#[derive(Debug, PartialEq)]
pub struct RunPreparation {
    pub scope: PrepareScope,
    pub request: RunActivation,
    pub step: PrepareStep,
}

/// The request as one that continues a waiting run.
pub open spec fn resuming(request: RunActivation, run_id: String) -> RunActivation {
    RunActivation {
        intent: RunIntent { kind: RunKind::HitlResume { run_id }, ..request.intent },
        trace: RunTrace { run_mode: RunMode::Resume, ..request.trace },
        ..request
    }
}

/// The request with an agent, where it has none.
pub open spec fn with_agent(request: RunActivation, agent_id: String) -> RunActivation {
    if request.intent.agent_id is None {
        RunActivation {
            intent: RunIntent { agent_id: Some(agent_id), ..request.intent },
            ..request
        }
    } else {
        request
    }
}

fn give_agent(request: RunActivation, agent_id: &String) -> (r: RunActivation)
    ensures
        r == with_agent(request, *agent_id),
{
    let mut r = request;
    if r.intent.agent_id.is_none() {
        r.intent.agent_id = Some(agent_id.clone());
    }
    r
}

/// Whether `after` begins the storing of a record: through a freeze where the
/// messages are staged as pending, else by an append to the log.
pub open spec fn begins_storing(
    scope: PrepareScope,
    request: RunActivation,
    ids: RunIds,
    messages: Vec<Message>,
    record: RunRecord,
    resolution_id: String,
    after: PrepareStep,
) -> bool {
    if scope.has_pending_store && messages@.len() > 0 && staging_boundary(request) is Some {
        let boundary = staging_boundary(request)->0;
        &&& after matches PrepareStep::Freeze { ids: i, boundary: b, freeze }
        &&& i == ids
        &&& b == boundary
        &&& freeze.scope == (FreezeScope {
            thread_id: scope.thread_id,
            run_id: ids.run_id,
            boundary,
            append: Some(
                Append { messages, mode: dispatch_delivery_mode(boundary, ids.run_id) },
            ),
        })
        &&& freeze.step matches FreezeStep::LoadCommitted { attempts, record: r, template }
        &&& attempts == 0
        &&& r == record
        &&& is_activation_snapshot(template, request, no_input(), resolution_id)
    } else {
        after == (PrepareStep::LoadCommitted { ids, messages, record, resolution_id, attempts: 0 })
    }
}

/// Whether `after` is the step that a loaded run leads to.
pub open spec fn follows_loaded_run(
    scope: PrepareScope,
    before: RunActivation,
    ids: RunIds,
    messages: Vec<Message>,
    previous: Option<RunRecord>,
    existing: Option<RunRecord>,
    after: RunPreparation,
) -> bool {
    match existing {
        Some(found) => match opening_fault(found, ids.run_id, scope.thread_id) {
            Some(fault) => after.request == before && after.step == (PrepareStep::Done {
                outcome: Err(fault),
            }),
            None => {
                let record = reopened(found, ids.dispatch_id);
                &&& after.request == with_agent(before, found.agent_id)
                &&& match found.resolution_id {
                    Some(resolution_id) => begins_storing(
                        scope,
                        after.request,
                        ids,
                        messages,
                        record,
                        resolution_id,
                        after.step,
                    ),
                    None => after.step == (PrepareStep::Resolve {
                        ids,
                        messages,
                        plan: RecordPlan::Existing { record },
                        scope: scope_of(after.request, ids.run_id),
                    }),
                }
            },
        },
        None => {
            &&& after.step matches PrepareStep::Resolve {
                ids: i,
                messages: m,
                plan: RecordPlan::New { agent_id, state },
                scope: s,
            }
            &&& i == ids
            &&& m == messages
            &&& agent_id@ == agent_for(before, previous)
            &&& state == inherited_state(previous)
            &&& after.request == with_agent(before, agent_id)
            &&& s == scope_of(after.request, ids.run_id)
        },
    }
}

/// The step at a state of the freeze. A freeze that consumed nothing leaves the run
/// without input, which is a fault.
pub open spec fn at_freeze(
    scope: PrepareScope,
    ids: RunIds,
    boundary: DeliveryBoundary,
    freeze: PendingFreeze,
) -> PrepareStep {
    match freeze.step {
        FreezeStep::Done { outcome, .. } => PrepareStep::Done {
            outcome: match outcome {
                Ok(Some(_)) => Ok(ids.run_id),
                Ok(None) => Err(Fault::NothingToFreeze { boundary, thread_id: scope.thread_id }),
                Err(fault) => Err(fault),
            },
        },
        _ => PrepareStep::Freeze { ids, boundary, freeze },
    }
}

/// Whether `after` is where the lookup of a waiting run leads to. A request that
/// found one continues it.
pub open spec fn follows_lookup(
    request: RunActivation,
    messages: Vec<Message>,
    lookup: WaitingLookup,
    fresh: RunIds,
    after: RunPreparation,
) -> bool {
    match lookup.step {
        WaitingStep::Done { outcome: Err(fault) } => after.request == request && after.step == (
        PrepareStep::Done { outcome: Err(fault) }),
        WaitingStep::Done { outcome: Ok(found) } => {
            let chosen = match found {
                Some(run_id) => resuming(request, run_id),
                None => request,
            };
            &&& after.request == with_chosen_ids(chosen, fresh)
            &&& after.step == (PrepareStep::LatestRun { ids: chosen_ids(chosen, fresh), messages })
        },
        _ => after.request == request && after.step == (PrepareStep::FindWaiting {
            messages,
            lookup,
        }),
    }
}

/// Whether `after` is what a reply may lead to. `fresh` holds the ids for a run
/// and a dispatch that have none.
pub open spec fn prepare_follows(
    before: RunPreparation,
    reply: PrepareReply,
    fresh: RunIds,
    after: RunPreparation,
) -> bool {
    let scope = before.scope;
    let request = before.request;
    let unchanged = after.request == request;
    &&& after.scope == scope
    &&& match (before.step, reply) {
        (PrepareStep::FindWaiting { messages, lookup }, PrepareReply::Waiting(inner)) =>
        follows_lookup(
            request,
            messages,
            WaitingLookup {
                step: next_waiting_step(lookup.thread_id, lookup.step, inner),
                ..lookup
            },
            fresh,
            after,
        ),
        (PrepareStep::LatestRun { ids, messages }, PrepareReply::Run(result)) => unchanged
            && after.step == (match result {
            Err(error) => PrepareStep::Done { outcome: Err(Fault::Store(error)) },
            Ok(previous) => PrepareStep::LoadRun { ids, messages, previous },
        }),
        (PrepareStep::LoadRun { ids, messages, previous }, PrepareReply::Run(result)) =>
        match result {
            Err(error) => unchanged && after.step == (PrepareStep::Done {
                outcome: Err(Fault::Store(error)),
            }),
            Ok(existing) => follows_loaded_run(
                scope,
                request,
                ids,
                messages,
                previous,
                existing,
                after,
            ),
        },
        (
            PrepareStep::Resolve { ids, messages, plan, .. },
            PrepareReply::Resolved { result, now },
        ) => unchanged && match result {
            Err(source) => after.step == (PrepareStep::Done {
                outcome: Err(Fault::Resolution { source }),
            }),
            Ok(resolution_id) => begins_storing(
                scope,
                request,
                ids,
                messages,
                match plan {
                    RecordPlan::Existing { record } => RunRecord {
                        resolution_id: Some(resolution_id),
                        ..record
                    },
                    RecordPlan::New { agent_id, state } => created_record(
                        ids,
                        scope.thread_id,
                        agent_id,
                        request,
                        resolution_id,
                        state,
                        now,
                    ),
                },
                resolution_id,
                after.step,
            ),
        },
        (PrepareStep::Freeze { ids, boundary, freeze }, PrepareReply::Freezing(inner)) => unchanged
            && exists|next: FreezeStep| #[trigger]
            freeze_follows(freeze.scope, freeze.step, inner, next) && after.step == at_freeze(
                scope,
                ids,
                boundary,
                PendingFreeze { step: next, ..freeze },
            ),
        (
            PrepareStep::LoadCommitted { ids, messages, record, resolution_id, attempts },
            PrepareReply::Messages { result, now },
        ) => unchanged && match result {
            Err(error) => after.step == (PrepareStep::Done { outcome: Err(Fault::Store(error)) }),
            Ok(log) => {
                &&& after.step matches PrepareStep::Commit {
                    ids: i,
                    messages: m,
                    record: r,
                    resolution_id: id,
                    attempts: a,
                    existing,
                    first_seq,
                    last_seq,
                }
                &&& i == ids
                &&& m == messages
                &&& id == resolution_id
                &&& a == attempts
                &&& match log {
                    Some(found) => existing == found,
                    None => existing@.len() == 0,
                }
                &&& first_seq == existing@.len() + 1
                &&& last_seq == existing@.len() + messages@.len()
                &&& is_append_record(
                    r,
                    record,
                    request,
                    scope.thread_id@,
                    existing@.len(),
                    messages@,
                    resolution_id,
                    now,
                )
            },
        },
        (
            PrepareStep::Commit {
                ids,
                messages,
                record,
                resolution_id,
                attempts,
                existing,
                first_seq,
                last_seq,
            },
            PrepareReply::Committed(outcome),
        ) => unchanged && match outcome {
            CommitOutcome::Committed => after.step matches PrepareStep::Publish {
                ids: i,
                record: r,
                log,
                first_seq: from,
                last_seq: to,
            } && i == ids && r == record && from == first_seq && to == last_seq && log@
                == existing@ + messages@,
            CommitOutcome::Conflict => after.step == (if attempts + 1 < MAX_APPEND_ATTEMPTS {
                PrepareStep::LoadCommitted {
                    ids,
                    messages,
                    record,
                    resolution_id,
                    attempts: (attempts + 1) as usize,
                }
            } else {
                PrepareStep::Done {
                    outcome: Err(Fault::AppendRetriesExhausted { thread_id: scope.thread_id }),
                }
            }),
            CommitOutcome::Failed { error } => after.step == (PrepareStep::Done {
                outcome: Err(Fault::CommitFailed { error }),
            }),
        },
        (PrepareStep::Publish { ids, record, log, .. }, _) => unchanged && after.step
            == (PrepareStep::RefreshCache { ids, record, log }),
        (PrepareStep::RefreshCache { ids, .. }, _) => unchanged && after.step
            == (PrepareStep::Done { outcome: Ok(ids.run_id) }),
        _ => false,
    }
}

fn begin_storing(
    scope: &PrepareScope,
    request: &RunActivation,
    ids: RunIds,
    messages: Vec<Message>,
    record: RunRecord,
    resolution_id: String,
) -> (r: PrepareStep)
    ensures
        begins_storing(*scope, *request, ids, messages, record, resolution_id, r),
{
    match prepare_pending_messages_for_dispatch(scope.has_pending_store, request, &messages) {
        Some(boundary) => {
            let template = run_activation_snapshot(request, empty_input(), resolution_id);
            let mode = delivery_mode_for_dispatch(boundary, &ids.run_id);
            let freeze_scope = FreezeScope {
                thread_id: scope.thread_id.clone(),
                run_id: ids.run_id.clone(),
                boundary,
                append: Some(Append { messages, mode }),
            };
            let freeze = PendingFreeze::prepare_pending_boundary_snapshot_for_run(
                true,
                freeze_scope,
                template,
                record,
            );
            PrepareStep::Freeze { ids, boundary, freeze }
        },
        None => PrepareStep::LoadCommitted { ids, messages, record, resolution_id, attempts: 0 },
    }
}

fn infer_agent(request: &RunActivation, previous: &Option<RunRecord>) -> (r: String)
    ensures
        r@ == agent_for(*request, *previous),
{
    match &request.intent.agent_id {
        Some(agent_id) => agent_id.clone(),
        None => match previous {
            Some(run) => if run.status != RunStatus::Created && !blank(run.agent_id.as_str()) {
                run.agent_id.clone()
            } else {
                "default".to_owned()
            },
            None => "default".to_owned(),
        },
    }
}

fn inherit_state(previous: &Option<RunRecord>) -> (r: Option<serde_json::Value>)
    ensures
        r == inherited_state(*previous),
{
    match previous {
        Some(run) => if run.status != RunStatus::Created {
            copy_json(&run.state)
        } else {
            None
        },
        None => None,
    }
}

fn loaded_run(
    scope: PrepareScope,
    request: RunActivation,
    ids: RunIds,
    messages: Vec<Message>,
    previous: Option<RunRecord>,
    existing: Option<RunRecord>,
) -> (r: RunPreparation)
    ensures
        r.scope == scope,
        follows_loaded_run(scope, request, ids, messages, previous, existing, r),
{
    match existing {
        Some(found) => {
            if !same_text(found.thread_id.as_str(), scope.thread_id.as_str()) {
                let fault = Fault::RunOfOtherThread {
                    run_id: ids.run_id,
                    owner: found.thread_id,
                    thread_id: scope.thread_id.clone(),
                };
                return RunPreparation {
                    scope,
                    request,
                    step: PrepareStep::Done { outcome: Err(fault) },
                };
            }
            if found.status != RunStatus::Created && !found.is_resumable_waiting() {
                let fault = Fault::RunNotOpen { run_id: ids.run_id };
                return RunPreparation {
                    scope,
                    request,
                    step: PrepareStep::Done { outcome: Err(fault) },
                };
            }
            let asked = give_agent(request, &found.agent_id);
            let resolution = copy_text(&found.resolution_id);
            let mut record = found;
            record.request = None;
            record.dispatch_id = Some(ids.dispatch_id.clone());
            match resolution {
                Some(resolution_id) => {
                    let step = begin_storing(
                        &scope,
                        &asked,
                        ids,
                        messages,
                        record,
                        resolution_id,
                    );
                    RunPreparation { scope, request: asked, step }
                },
                None => {
                    let target = resolve_replayable_resolution_id(&asked, &ids.run_id);
                    RunPreparation {
                        scope,
                        request: asked,
                        step: PrepareStep::Resolve {
                            ids,
                            messages,
                            plan: RecordPlan::Existing { record },
                            scope: target,
                        },
                    }
                },
            }
        },
        None => {
            let agent_id = infer_agent(&request, &previous);
            let state = inherit_state(&previous);
            let asked = give_agent(request, &agent_id);
            let target = resolve_replayable_resolution_id(&asked, &ids.run_id);
            RunPreparation {
                scope,
                request: asked,
                step: PrepareStep::Resolve {
                    ids,
                    messages,
                    plan: RecordPlan::New { agent_id, state },
                    scope: target,
                },
            }
        },
    }
}

fn looked_up(
    scope: PrepareScope,
    request: RunActivation,
    messages: Vec<Message>,
    lookup: WaitingLookup,
    fresh: RunIds,
) -> (r: RunPreparation)
    ensures
        r.scope == scope,
        follows_lookup(request, messages, lookup, fresh, r),
{
    let WaitingLookup { thread_id, step } = lookup;
    match step {
        WaitingStep::Done { outcome: Err(fault) } => RunPreparation {
            scope,
            request,
            step: PrepareStep::Done { outcome: Err(fault) },
        },
        WaitingStep::Done { outcome: Ok(found) } => {
            let mut chosen = request;
            if let Some(run_id) = found {
                chosen.intent.kind = RunKind::HitlResume { run_id };
                chosen.trace.run_mode = RunMode::Resume;
            }
            let (named, ids) = choose_ids(chosen, fresh);
            RunPreparation { scope, request: named, step: PrepareStep::LatestRun { ids, messages } }
        },
        step => RunPreparation {
            scope,
            request,
            step: PrepareStep::FindWaiting { messages, lookup: WaitingLookup { thread_id, step } },
        },
    }
}

fn freeze_step(
    scope: &PrepareScope,
    ids: RunIds,
    boundary: DeliveryBoundary,
    freeze: PendingFreeze,
) -> (r: PrepareStep)
    ensures
        r == at_freeze(*scope, ids, boundary, freeze),
{
    match freeze.step {
        FreezeStep::Done { record: _, outcome } => PrepareStep::Done {
            outcome: match outcome {
                Ok(Some(_)) => Ok(ids.run_id),
                Ok(None) => Err(
                    Fault::NothingToFreeze { boundary, thread_id: scope.thread_id.clone() },
                ),
                Err(fault) => Err(fault),
            },
        },
        step => PrepareStep::Freeze {
            ids,
            boundary,
            freeze: PendingFreeze { scope: freeze.scope, step },
        },
    }
}

fn append_record(
    base: RunRecord,
    request: &RunActivation,
    thread_id: &String,
    last_seq: u64,
    messages: &Vec<Message>,
    resolution_id: &String,
    now: u64,
) -> (r: RunRecord)
    requires
        messages@.len() <= last_seq,
    ensures
        is_append_record(
            r,
            base,
            *request,
            thread_id@,
            (last_seq - messages@.len()) as nat,
            messages@,
            *resolution_id,
            now,
        ),
{
    let ids = message_ids(messages);
    let (snapshot_input, input) = build_run_input(thread_id.as_str(), last_seq, &ids);
    let snapshot = run_activation_snapshot(request, snapshot_input, resolution_id.clone());
    let mut record = base;
    record.activation = Some(snapshot);
    record.input = Some(input);
    record.updated_at = now;
    record
}

fn extend(existing: Vec<Message>, messages: Vec<Message>) -> (r: Vec<Message>)
    ensures
        r@ == existing@ + messages@,
{
    let mut log = existing;
    let mut tail = messages;
    log.append(&mut tail);
    log
}

impl RunPreparation {
    /// Begin to prepare a run for dispatch. Messages without an id are given one. A
    /// request that neither continues a run nor names one may continue a waiting run
    /// of the thread.
    pub fn prepare_run_for_dispatch(
        scope: PrepareScope,
        request: RunActivation,
        messages: Vec<Message>,
    ) -> (r: RunPreparation)
        ensures
            exists|fresh: RunIds, given: Vec<Message>|
                is_uuid(fresh.run_id@) && is_uuid(fresh.dispatch_id@) && have_ids(
                    given@,
                    messages@,
                ) && #[trigger] begins_preparation(scope, request, given, fresh, r),
    {
        let fresh = RunIds { run_id: fresh_id(), dispatch_id: fresh_id() };
        let given = normalize_message_ids(messages);
        Self::prepare_with(scope, request, given, fresh)
    }

    /// Begin to prepare a run for dispatch, with the given ids for a run and a
    /// dispatch that have none. The messages have their ids.
    pub fn prepare_with(
        scope: PrepareScope,
        request: RunActivation,
        messages: Vec<Message>,
        fresh: RunIds,
    ) -> (r: RunPreparation)
        ensures
            begins_preparation(scope, request, messages, fresh, r),
    {
        if !request.resumes() && request.persistence.run_id_hint.is_none() {
            let lookup = WaitingLookup::reusable_waiting_run_id(scope.thread_id.clone());
            RunPreparation { scope, request, step: PrepareStep::FindWaiting { messages, lookup } }
        } else {
            let (named, ids) = choose_ids(request, fresh);
            RunPreparation {
                scope,
                request: named,
                step: PrepareStep::LatestRun { ids, messages },
            }
        }
    }

    /// Whether a reply is one that the operation of the due step gives.
    pub fn expects(&self, reply: &PrepareReply) -> (r: bool)
        ensures
            r == prepare_answers(self.step, *reply),
    {
        match (&self.step, reply) {
            (
                PrepareStep::FindWaiting { lookup, .. },
                PrepareReply::Waiting(inner),
            ) => lookup.expects(inner),
            (PrepareStep::LatestRun { .. }, PrepareReply::Run(_)) => true,
            (PrepareStep::LoadRun { .. }, PrepareReply::Run(_)) => true,
            (PrepareStep::Resolve { .. }, PrepareReply::Resolved { .. }) => true,
            (PrepareStep::Freeze { freeze, .. }, PrepareReply::Freezing(inner)) => freeze.expects(
                inner,
            ),
            (
                PrepareStep::LoadCommitted { messages, .. },
                PrepareReply::Messages { result, .. },
            ) => {
                let new: u128 = messages.len() as u128;
                match result {
                    Ok(Some(existing)) => (existing.len() as u128) + new < u64::MAX as u128,
                    _ => new < u64::MAX as u128,
                }
            },
            (PrepareStep::Commit { .. }, PrepareReply::Committed(_)) => true,
            (PrepareStep::Publish { .. }, PrepareReply::Performed) => true,
            (PrepareStep::RefreshCache { .. }, PrepareReply::Performed) => true,
            _ => false,
        }
    }

    /// Take the reply to the operation that was due.
    pub fn advance(self, reply: PrepareReply) -> (r: RunPreparation)
        requires
            prepare_answers(self.step, reply),
        ensures
            exists|fresh: RunIds|
                is_uuid(fresh.run_id@) && is_uuid(fresh.dispatch_id@) && #[trigger] prepare_follows(
                    self,
                    reply,
                    fresh,
                    r,
                ),
    {
        let fresh = RunIds { run_id: fresh_id(), dispatch_id: fresh_id() };
        self.advance_with(reply, fresh)
    }

    /// Take the reply to the operation that was due, with the given ids for a run
    /// and a dispatch that have none.
    pub fn advance_with(self, reply: PrepareReply, fresh: RunIds) -> (r: RunPreparation)
        requires
            prepare_answers(self.step, reply),
        ensures
            prepare_follows(self, reply, fresh, r),
    {
        let scope = self.scope;
        let request = self.request;
        match (self.step, reply) {
            (PrepareStep::FindWaiting { messages, lookup }, PrepareReply::Waiting(inner)) =>
            looked_up(scope, request, messages, lookup.advance(inner), fresh),
            (PrepareStep::LatestRun { ids, messages }, PrepareReply::Run(result)) => {
                let step = match result {
                    Err(error) => PrepareStep::Done { outcome: Err(Fault::Store(error)) },
                    Ok(previous) => PrepareStep::LoadRun { ids, messages, previous },
                };
                RunPreparation { scope, request, step }
            },
            (PrepareStep::LoadRun { ids, messages, previous }, PrepareReply::Run(result)) =>
            match result {
                Err(error) => RunPreparation {
                    scope,
                    request,
                    step: PrepareStep::Done { outcome: Err(Fault::Store(error)) },
                },
                Ok(existing) => loaded_run(scope, request, ids, messages, previous, existing),
            },
            (
                PrepareStep::Resolve { ids, messages, plan, scope: _ },
                PrepareReply::Resolved { result, now },
            ) => match result {
                Err(source) => RunPreparation {
                    scope,
                    request,
                    step: PrepareStep::Done { outcome: Err(Fault::Resolution { source }) },
                },
                Ok(resolution_id) => {
                    let record = match plan {
                        RecordPlan::Existing { record } => {
                            let mut found = record;
                            found.resolution_id = Some(resolution_id.clone());
                            found
                        },
                        RecordPlan::New { agent_id, state } => create_record(
                            &ids,
                            &scope.thread_id,
                            agent_id,
                            &request,
                            &resolution_id,
                            state,
                            now,
                        ),
                    };
                    let step = begin_storing(
                        &scope,
                        &request,
                        ids,
                        messages,
                        record,
                        resolution_id,
                    );
                    RunPreparation { scope, request, step }
                },
            },
            (PrepareStep::Freeze { ids, boundary, freeze }, PrepareReply::Freezing(inner)) => {
                let next = freeze.advance(inner);
                assert(freeze_follows(freeze.scope, freeze.step, inner, next.step));
                let step = freeze_step(&scope, ids, boundary, next);
                RunPreparation { scope, request, step }
            },
            (
                PrepareStep::LoadCommitted { ids, messages, record, resolution_id, attempts },
                PrepareReply::Messages { result, now },
            ) => match result {
                Err(error) => RunPreparation {
                    scope,
                    request,
                    step: PrepareStep::Done { outcome: Err(Fault::Store(error)) },
                },
                Ok(log) => {
                    let existing = match log {
                        Some(found) => found,
                        None => Vec::new(),
                    };
                    let first_seq: u64 = existing.len() as u64 + 1;
                    let last_seq: u64 = existing.len() as u64 + messages.len() as u64;
                    let updated = append_record(
                        record,
                        &request,
                        &scope.thread_id,
                        last_seq,
                        &messages,
                        &resolution_id,
                        now,
                    );
                    RunPreparation {
                        scope,
                        request,
                        step: PrepareStep::Commit {
                            ids,
                            messages,
                            record: updated,
                            resolution_id,
                            attempts,
                            existing,
                            first_seq,
                            last_seq,
                        },
                    }
                },
            },
            (
                PrepareStep::Commit {
                    ids,
                    messages,
                    record,
                    resolution_id,
                    attempts,
                    existing,
                    first_seq,
                    last_seq,
                },
                PrepareReply::Committed(outcome),
            ) => {
                let step = match outcome {
                    CommitOutcome::Committed => PrepareStep::Publish {
                        ids,
                        record,
                        log: extend(existing, messages),
                        first_seq,
                        last_seq,
                    },
                    CommitOutcome::Conflict => if attempts < MAX_APPEND_ATTEMPTS - 1 {
                        PrepareStep::LoadCommitted {
                            ids,
                            messages,
                            record,
                            resolution_id,
                            attempts: attempts + 1,
                        }
                    } else {
                        PrepareStep::Done {
                            outcome: Err(
                                Fault::AppendRetriesExhausted {
                                    thread_id: scope.thread_id.clone(),
                                },
                            ),
                        }
                    },
                    CommitOutcome::Failed { error } => PrepareStep::Done {
                        outcome: Err(Fault::CommitFailed { error }),
                    },
                };
                RunPreparation { scope, request, step }
            },
            (PrepareStep::Publish { ids, record, log, first_seq: _, last_seq: _ }, _) =>
            RunPreparation { scope, request, step: PrepareStep::RefreshCache { ids, record, log } },
            (PrepareStep::RefreshCache { ids, record: _, log: _ }, _) => RunPreparation {
                scope,
                request,
                step: PrepareStep::Done { outcome: Ok(ids.run_id) },
            },
            (step, _) => RunPreparation { scope, request, step },
        }
    }
}

/// Whether a preparation is how a request begins to be prepared.
pub open spec fn begins_preparation(
    scope: PrepareScope,
    request: RunActivation,
    messages: Vec<Message>,
    fresh: RunIds,
    r: RunPreparation,
) -> bool {
    &&& r.scope == scope
    &&& if resumed_run(request) is None && request.persistence.run_id_hint is None {
        r.request == request && r.step == (PrepareStep::FindWaiting {
            messages,
            lookup: WaitingLookup { thread_id: scope.thread_id, step: WaitingStep::LoadThread },
        })
    } else {
        r.request == with_chosen_ids(request, fresh) && r.step == (PrepareStep::LatestRun {
            ids: chosen_ids(request, fresh),
            messages,
        })
    }
}

/// A preparation: how it stood before each reply, the replies, and the ids that
/// were fresh at the start and at each reply.
pub open spec fn is_preparation(
    scope: PrepareScope,
    request: RunActivation,
    messages: Vec<Message>,
    stages: Seq<RunPreparation>,
    replies: Seq<PrepareReply>,
    first: RunIds,
    fresh: Seq<RunIds>,
) -> bool {
    &&& stages.len() == replies.len() + 1
    &&& fresh.len() == replies.len()
    &&& begins_preparation(scope, request, messages, first, stages[0])
    &&& forall|i: int|
        #![trigger replies[i]]
        0 <= i < replies.len() ==> prepare_answers(stages[i].step, replies[i]) && prepare_follows(
            stages[i],
            replies[i],
            fresh[i],
            stages[i + 1],
        )
}

/// Whether a record belongs to the thread, is one that a recovery takes up, and
/// names the dispatch that the request names too.
pub open spec fn matches_dispatch(
    scope: PrepareScope,
    request: RunActivation,
    ids: RunIds,
    record: RunRecord,
) -> bool {
    &&& record.thread_id@ == scope.thread_id@
    &&& is_prepared(record)
    &&& record.dispatch_id == Some(ids.dispatch_id)
    &&& request.persistence.dispatch_id_hint == Some(ids.dispatch_id)
}

/// The record that a step of a freeze is about.
pub open spec fn record_in_freeze(step: FreezeStep) -> RunRecord {
    match step {
        FreezeStep::LoadCommitted { record, .. } => record,
        FreezeStep::LoadPending { record, .. } => record,
        FreezeStep::Select { record, .. } => record,
        FreezeStep::Commit { attempt, .. } => attempt.record,
        FreezeStep::Publish { record, .. } => record,
        FreezeStep::QueueRepair { record, .. } => record,
        FreezeStep::RefreshCache { record, .. } => record,
        FreezeStep::Done { record, .. } => record,
    }
}

/// What holds of a preparation of `messages` on a thread, however far it is.
pub open spec fn preparation_invariant(
    scope: PrepareScope,
    messages: Vec<Message>,
    stage: RunPreparation,
) -> bool {
    let request = stage.request;
    &&& stage.scope == scope
    &&& match stage.step {
        PrepareStep::FindWaiting { messages: m, lookup } => m == messages && lookup.thread_id
            == scope.thread_id,
        PrepareStep::LatestRun { ids, messages: m } => m == messages
            && request.persistence.dispatch_id_hint == Some(ids.dispatch_id),
        PrepareStep::LoadRun { ids, messages: m, .. } => m == messages
            && request.persistence.dispatch_id_hint == Some(ids.dispatch_id),
        PrepareStep::Resolve { ids, messages: m, plan, .. } => {
            &&& m == messages
            &&& request.persistence.dispatch_id_hint == Some(ids.dispatch_id)
            &&& plan matches RecordPlan::Existing { record } ==> matches_dispatch(
                scope,
                request,
                ids,
                record,
            )
        },
        PrepareStep::Freeze { ids, freeze, .. } => {
            &&& freeze.scope.thread_id == scope.thread_id
            &&& freeze.scope.run_id == ids.run_id
            &&& freeze.scope.append matches Some(append) && append.messages == messages
            &&& matches_dispatch(scope, request, ids, record_in_freeze(freeze.step))
        },
        PrepareStep::LoadCommitted { ids, messages: m, record, attempts, .. } => m == messages
            && matches_dispatch(scope, request, ids, record) && attempts < MAX_APPEND_ATTEMPTS,
        PrepareStep::Commit { ids, messages: m, record, attempts, existing, last_seq, .. } => {
            &&& m == messages
            &&& matches_dispatch(scope, request, ids, record)
            &&& attempts < MAX_APPEND_ATTEMPTS
            &&& last_seq == existing@.len() + messages@.len()
        },
        PrepareStep::Publish { ids, record, log, last_seq, .. } => {
            &&& matches_dispatch(scope, request, ids, record)
            &&& log@.len() == last_seq
            &&& log@.len() >= messages@.len()
            &&& log@.skip(log@.len() - messages@.len()) == messages@
        },
        PrepareStep::RefreshCache { ids, record, log } => {
            &&& matches_dispatch(scope, request, ids, record)
            &&& log@.len() >= messages@.len()
            &&& log@.skip(log@.len() - messages@.len()) == messages@
        },
        PrepareStep::Done { .. } => true,
    }
}

/// A run is never prepared on a thread that it does not belong to; the record that
/// is stored is one that a recovery takes up, and names the very dispatch that the
/// request names, so that recovery can match them; what is appended is the submitted
/// messages, no more and no fewer, at the end of the log; and at most eight appends
/// are tried.
pub proof fn lemma_preparation_matches_run_and_dispatch(
    scope: PrepareScope,
    request: RunActivation,
    messages: Vec<Message>,
    stages: Seq<RunPreparation>,
    replies: Seq<PrepareReply>,
    first: RunIds,
    fresh: Seq<RunIds>,
    at: int,
)
    requires
        is_preparation(scope, request, messages, stages, replies, first, fresh),
        0 <= at < stages.len(),
    ensures
        preparation_invariant(scope, messages, stages[at]),
    decreases at,
{
    if at > 0 {
        lemma_preparation_matches_run_and_dispatch(
            scope,
            request,
            messages,
            stages,
            replies,
            first,
            fresh,
            at - 1,
        );
        let before = stages[at - 1];
        let after = stages[at];
        assert(prepare_answers(before.step, replies[at - 1]));
        assert(prepare_follows(before, replies[at - 1], fresh[at - 1], after));
        lemma_preparation_step(messages, before, replies[at - 1], fresh[at - 1], after);
    }
}

/// No message that another instance appended is lost: what is committed is the
/// submitted messages alone, right after the log was read, and against that log. A
/// log that grew in between makes the commit a conflict, and is read again.
pub proof fn lemma_appends_extend_the_log_they_read(
    scope: PrepareScope,
    request: RunActivation,
    messages: Vec<Message>,
    stages: Seq<RunPreparation>,
    replies: Seq<PrepareReply>,
    first: RunIds,
    fresh: Seq<RunIds>,
    at: int,
)
    requires
        is_preparation(scope, request, messages, stages, replies, first, fresh),
        0 <= at < stages.len(),
        stages[at].step is Commit,
    ensures
        at > 0,
        stages[at - 1].step is LoadCommitted,
        replies[at - 1] matches PrepareReply::Messages { result: Ok(log), now }
            && stages[at].step matches PrepareStep::Commit {
            messages: appended,
            record,
            existing,
            first_seq,
            last_seq,
            ..
        } && {
            &&& appended == messages
            &&& existing@ == (match log {
                Some(found) => found@,
                None => seq![],
            })
            &&& first_seq == existing@.len() + 1
            &&& last_seq == existing@.len() + messages@.len()
            &&& record.updated_at == now
            &&& record.input matches Some(input) && input@ == whole_log_input(
                scope.thread_id@,
                last_seq,
                ids_of(messages@),
            )
        },
        at + 1 < stages.len() && replies[at] == PrepareReply::Committed(CommitOutcome::Conflict)
            ==> stages[at + 1].step is LoadCommitted || stages[at + 1].step is Done,
{
    assert(begins_preparation(scope, request, messages, first, stages[0]));
    lemma_preparation_matches_run_and_dispatch(
        scope,
        request,
        messages,
        stages,
        replies,
        first,
        fresh,
        at,
    );
    assert(prepare_answers(stages[at - 1].step, replies[at - 1]));
    assert(prepare_follows(stages[at - 1], replies[at - 1], fresh[at - 1], stages[at]));
    if at + 1 < stages.len() {
        assert(prepare_follows(stages[at], replies[at], fresh[at], stages[at + 1]));
    }
}

/// Whether the record of a run was committed to the store before the stage `at`:
/// with an append to the log, or in the transaction of a freeze. The record names
/// the dispatch that the request names at that stage.
pub open spec fn was_stored(
    stages: Seq<RunPreparation>,
    replies: Seq<PrepareReply>,
    at: int,
    run_id: String,
) -> bool {
    exists|i: int|
        0 <= i < at && #[trigger] commits_record(stages[i], replies[i], run_id, stages[at].request)
}

/// Whether a reply says that the record of a run, with the dispatch that `request`
/// names, was committed.
pub open spec fn commits_record(
    stage: RunPreparation,
    reply: PrepareReply,
    run_id: String,
    request: RunActivation,
) -> bool {
    match (stage.step, reply) {
        (PrepareStep::Commit { ids, record, .. }, PrepareReply::Committed(outcome)) => {
            &&& outcome is Committed
            &&& ids.run_id == run_id
            &&& matches_dispatch(stage.scope, request, ids, record)
        },
        (
            PrepareStep::Freeze { ids, freeze, .. },
            PrepareReply::Freezing(FreezeReply::Frozen(result)),
        ) => {
            &&& freeze.step matches FreezeStep::Commit { attempt, .. } && matches_dispatch(
                stage.scope,
                request,
                ids,
                attempt.record,
            )
            &&& result is Ok
            &&& ids.run_id == run_id
        },
        _ => false,
    }
}

/// The run whose record a stage has behind it as committed.
pub open spec fn stored_run(step: PrepareStep) -> Option<String> {
    match step {
        PrepareStep::Publish { ids, .. } => Some(ids.run_id),
        PrepareStep::RefreshCache { ids, .. } => Some(ids.run_id),
        PrepareStep::Freeze { ids, freeze, .. } => if freeze.step is Publish
            || freeze.step is QueueRepair || freeze.step is RefreshCache {
            Some(ids.run_id)
        } else {
            None
        },
        PrepareStep::Done { outcome: Ok(run_id) } => Some(run_id),
        _ => None,
    }
}

/// A freeze changes neither the thread nor the dispatch of its record, nor whether
/// the run can be dispatched.
proof fn lemma_freeze_keeps_the_record_open(
    scope: FreezeScope,
    step: FreezeStep,
    reply: FreezeReply,
    next: FreezeStep,
)
    requires
        freeze_answers(scope, step, reply),
        freeze_follows(scope, step, reply, next),
    ensures
        record_in_freeze(next).thread_id == record_in_freeze(step).thread_id,
        record_in_freeze(next).dispatch_id == record_in_freeze(step).dispatch_id,
        is_prepared(record_in_freeze(step)) ==> is_prepared(record_in_freeze(next)),
{
}

/// A step of a preparation keeps its invariant. It reaches a stage with the record
/// committed only from another such stage, with the same request, or by committing
/// the record.
pub proof fn lemma_preparation_step(
    messages: Vec<Message>,
    before: RunPreparation,
    reply: PrepareReply,
    fresh: RunIds,
    after: RunPreparation,
)
    requires
        preparation_invariant(before.scope, messages, before),
        prepare_answers(before.step, reply),
        prepare_follows(before, reply, fresh, after),
    ensures
        preparation_invariant(before.scope, messages, after),
        stored_run(after.step) matches Some(run_id) ==> {
            &&& after.request == before.request
            &&& stored_run(before.step) == Some(run_id) || commits_record(
                before,
                reply,
                run_id,
                after.request,
            )
        },
{
    match before.step {
        PrepareStep::Commit { existing, .. } => {
            if let PrepareStep::Publish { log, .. } = after.step {
                assert(log@.skip(existing@.len() as int) =~= messages@);
            }
        },
        PrepareStep::Freeze { freeze, .. } => {
            let inner = reply->Freezing_0;
            let next = choose|next: FreezeStep| #[trigger]
                freeze_follows(freeze.scope, freeze.step, inner, next) && after.step == at_freeze(
                    before.scope,
                    before.step->Freeze_ids,
                    before.step->Freeze_boundary,
                    PendingFreeze { step: next, ..freeze },
                );
            lemma_freeze_keeps_the_record_open(freeze.scope, freeze.step, inner, next);
        },
        _ => {},
    }
}

/// A run is reported as prepared only after its record was committed, together
/// with the messages that trigger it. The record names the dispatch that will be
/// queued, so that recovery can queue it where the process stops in between.
pub proof fn lemma_prepared_runs_are_stored(
    scope: PrepareScope,
    request: RunActivation,
    messages: Vec<Message>,
    stages: Seq<RunPreparation>,
    replies: Seq<PrepareReply>,
    first: RunIds,
    fresh: Seq<RunIds>,
    at: int,
)
    requires
        is_preparation(scope, request, messages, stages, replies, first, fresh),
        0 <= at < stages.len(),
    ensures
        stored_run(stages[at].step) matches Some(run_id) ==> was_stored(
            stages,
            replies,
            at,
            run_id,
        ),
    decreases at,
{
    if at > 0 {
        lemma_prepared_runs_are_stored(
            scope,
            request,
            messages,
            stages,
            replies,
            first,
            fresh,
            at - 1,
        );
        lemma_preparation_matches_run_and_dispatch(
            scope,
            request,
            messages,
            stages,
            replies,
            first,
            fresh,
            at - 1,
        );
        let before = stages[at - 1];
        let reply = replies[at - 1];
        let after = stages[at];
        assert(prepare_answers(before.step, reply));
        assert(prepare_follows(before, reply, fresh[at - 1], after));
        lemma_preparation_step(messages, before, reply, fresh[at - 1], after);
        if let Some(run_id) = stored_run(after.step) {
            if stored_run(before.step) == Some(run_id) {
                let i = choose|i: int|
                    0 <= i < at - 1 && #[trigger] commits_record(
                        stages[i],
                        replies[i],
                        run_id,
                        before.request,
                    );
                assert(commits_record(stages[i], replies[i], run_id, after.request));
            } else {
                assert(commits_record(stages[at - 1], replies[at - 1], run_id, after.request));
            }
        }
    } else {
        assert(begins_preparation(scope, request, messages, first, stages[0]));
    }
}

} // verus!
