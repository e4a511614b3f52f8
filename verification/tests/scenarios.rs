//! Whole scenarios: the flows of the mailbox, performed one operation at a time on
//! stores that live in this file.

use std::collections::{HashMap, VecDeque};

use remo_server::activation::{
    AdapterKind, ResumeDecisionAction, RunActivation, RunMode, RunOrigin, SeededDecision,
    ToolCallResume,
};
use remo_server::delivery::{
    DeliveryBoundary, DeliveryGranularity, DeliveryMode, MessageRecord, PendingMessageRecord,
};
use remo_server::dispatch::{
    LiveDeliveryOutcome, LiveRunCommand, LiveRunTarget, MailboxInterruptDetails, RunDispatch,
    RunDispatchStatus,
};
use remo_server::error::{Fault, MailboxError, StorageError, ACTIVE_RUN_CONFLICT_MESSAGE};
use remo_server::mailbox::cancel::{
    reconcile_terminal_dispatch, ActiveReply, ActiveStep, Aftermath, AftermathReply,
    AftermathStep, CancelReply, CancelStep, InterruptReply, InterruptStep, MarkReply, MarkStep,
    ReconcileReply, ReconcileStep, RouteReply, RouteStep, TerminalKind, TerminalMark, TerminalReconciliation,
};
use remo_server::mailbox::checkpoint::{commit_run_append, CommitError, CommitOutcome};
use remo_server::mailbox::checkpoint_repair::{
    CheckpointRepairQueue, DrainReply, DrainStep, RepairDrain,
};
use remo_server::mailbox::config::{
    MailboxConfig, PENDING_RECOVERY_PAGE_SIZE, RECLAIM_LIMIT, REPAIR_PAGE_SIZE, RUN_PAGE_SIZE,
    SIGNAL_NACK_BASE_DELAY_MS, SIGNAL_NACK_MAX_DELAY_MS,
};
use remo_server::mailbox::decision::{DecisionReply, DecisionStep};
use remo_server::mailbox::dispatch_execution::{
    Claim, ClaimedDispatch, ExecutionReply, ExecutionStep,
};
use remo_server::mailbox::event_repair::{EventRepair, EventRepairReply, EventRepairStep};
use remo_server::mailbox::facade::{ExecutorFacilities, Mailbox};
use remo_server::mailbox::helpers::{normalize_message_ids, validate_run_inputs};
use remo_server::mailbox::legacy::{LegacyConversion, LegacyRunSnapshotExtras};
use remo_server::mailbox::lifecycle::{
    may_collect, ready_expects, run_gc, run_startup_recovery_with_retry, run_sweep,
    start_lifecycle_ready, startup_expects, sweep_event, sweep_expects, ReadyReply, ReadyStep,
    StartupReply, StartupStep, SweepReply, SweepStep,
};
use remo_server::mailbox::live_delivery::{
    ActiveRun, LiveDelivery, LiveReply, LiveStep, MailboxDispatchStatus, MailboxSubmitResult,
    WaitingLookup, WaitingReply, WaitingStep,
};
use remo_server::mailbox::pending_boundary::{BoundaryFreeze, BoundaryReply, BoundaryStep};
use remo_server::mailbox::pending_delivery::{
    cleanup_appended_pending_message, prepare_pending_messages_for_dispatch,
};
use remo_server::mailbox::pending_freeze::{FreezeReply, FreezeScope, FreezeStep, PendingFreeze};
use remo_server::mailbox::prepare_run::{
    empty_input, run_activation_snapshot, PrepareReply, PrepareScope, PrepareStep,
    ResolutionScope, RunPreparation,
};
use remo_server::mailbox::reconstruct::{Reconstruction, ReplayReply, ReplayStep};
use remo_server::mailbox::recovery::{
    recover, recover_event, recover_expects, OrphanReply, OrphanScan, OrphanStep, PreparedRecovery,
    PreparedReply, PreparedStep, RecoverReply, RecoverStep, RunPage, WaitRecovery, WaitReply,
    WaitStep,
};
use remo_server::mailbox::server_event_capture::{
    checkpoint_event_not_recorded, record_mailbox_decision_received,
    record_thread_message_checkpoint_events, EventDraft, EventPayload, PayloadValue,
};
use remo_server::mailbox::signal_loop::{
    claim_expects, dispatch_next_claim, handle_dispatch_signal_entry, signal_expects,
    try_dispatch_next, ClaimReply, ClaimStep, DispatchAttempt, SignalEntry, SignalReply,
    SignalStep,
};
use remo_server::mailbox::submit::{
    build_dispatch, LiveQueueReply, LiveQueueStep, Submission, SubmitReply, SubmitStep,
};
use remo_server::mailbox::workers::WorkerTable;
use remo_server::message::{Message, Role, Visibility};
use remo_server::run::{
    RunActivationSnapshot, RunDispatchResult, RunRecord, RunRequestSnapshot, RunStatus,
    RunWaitingState, TerminationReason, WaitingReason,
};
use remo_server::runtime::{
    AgentLoopError, AgentRunResult, InferenceExecutionError, RuntimeError,
};

const CANCEL_WAIT_MS: u64 = 5_000;

struct Context {
    messages: Vec<Message>,
    latest: Option<RunRecord>,
}

/// A mailbox with its stores, its runtime and all that is told to the world.
struct World {
    mailbox: Mailbox,
    now: u64,
    dispatches: Vec<RunDispatch>,
    epochs: HashMap<String, u64>,
    runs: Vec<RunRecord>,
    logs: HashMap<String, Vec<Message>>,
    pending: HashMap<String, Vec<PendingMessageRecord>>,
    workers: WorkerTable<u64, Context>,
    repairs: CheckpointRepairQueue,
    events: Vec<EventDraft>,
    /// Claims whose execution is still to be run.
    started: Vec<(RunDispatch, String)>,
    /// What the runtime gives, in order. When it is empty, runs succeed.
    results: VecDeque<Result<AgentRunResult, AgentLoopError>>,
    requests: Vec<RunActivation>,
    failures_emitted: Vec<String>,
    runtime_cancels: bool,
    runtime_takes_decisions: bool,
    runtime_takes_messages: bool,
    wakes: Vec<String>,
    /// What a command to a remote run meets.
    remote: LiveDeliveryOutcome,
    /// The commands that were sent to remote runs, with the ids of the runs.
    delivered: Vec<(String, LiveRunCommand)>,
    /// Whether a cancelled dispatch is released while the cancel waits.
    releases: bool,
    /// How many of the next operations of a kind fail.
    faults: HashMap<&'static str, usize>,
    /// How many of the next commits meet a log that another instance appended to.
    commit_conflicts: usize,
    /// The entry that is retracted when the next freeze meets a conflict.
    retracted: Option<String>,
    /// The open runs of threads, where they are not the last ones that are not done.
    open_runs: HashMap<String, String>,
    /// The messages that the runtime took for a run under way.
    steered: Vec<Message>,
    next_token: u64,
    next_pending: u64,
}

type Stored<T> = Result<T, StorageError>;

fn user(text: &str) -> Message {
    Message::user(text.to_string())
}

fn request(thread_id: &str, text: &str) -> RunActivation {
    RunActivation::new(thread_id.to_string(), vec![user(text)]).with_agent_id("agent".to_string())
}

fn resume() -> ToolCallResume {
    ToolCallResume {
        decision_id: "d1".to_string(),
        action: ResumeDecisionAction::Resume,
        result: json(r#"{"approved": true}"#),
        reason: None,
        updated_at: 0,
    }
}

fn json(text: &str) -> serde_json::Value {
    serde_json::from_str(text).unwrap()
}

fn run_record(run_id: &str, thread_id: &str, agent_id: &str, status: RunStatus) -> RunRecord {
    RunRecord {
        run_id: run_id.to_string(),
        thread_id: thread_id.to_string(),
        agent_id: agent_id.to_string(),
        parent_run_id: None,
        resolution_id: None,
        activation: None,
        request: None,
        input: None,
        output: None,
        status,
        termination_reason: None,
        final_output: None,
        error_payload: None,
        dispatch_id: None,
        session_id: None,
        transport_request_id: None,
        waiting: None,
        outcome: None,
        created_at: 1,
        started_at: None,
        finished_at: None,
        updated_at: 1,
        steps: 2,
        input_tokens: 0,
        output_tokens: 0,
        state: None,
    }
}

fn waiting_run(run_id: &str, thread_id: &str, reason: WaitingReason) -> RunRecord {
    let mut run = run_record(run_id, thread_id, "agent", RunStatus::Waiting);
    run.waiting = Some(RunWaitingState { reason, resumable: true, details: None });
    run
}

fn ran(response: &str) -> Result<AgentRunResult, AgentLoopError> {
    Ok(AgentRunResult {
        run_id: "runtime-run".to_string(),
        response: response.to_string(),
        termination: TerminationReason::NaturalEnd,
        steps: 1,
    })
}

fn unauthorized() -> Result<AgentRunResult, AgentLoopError> {
    let error = InferenceExecutionError::Unauthorized(
        "403 pre_consume_token_quota_failed".to_string(),
    );
    Err(AgentLoopError::Inference(error))
}

fn rate_limited() -> Result<AgentRunResult, AgentLoopError> {
    let error = InferenceExecutionError::rate_limited("429 too many requests".to_string());
    Err(AgentLoopError::Inference(error))
}

fn release(dispatch: &mut RunDispatch, status: RunDispatchStatus, now: u64) {
    dispatch.status = status;
    dispatch.claim_token = None;
    dispatch.claimed_by = None;
    dispatch.lease_until = None;
    dispatch.updated_at = now;
    if status != RunDispatchStatus::Queued {
        dispatch.completed_at = Some(now);
    }
}

fn text_field(event: &EventDraft, name: &str) -> Option<String> {
    match &event.payload {
        EventPayload::Fields(fields) => {
            fields.iter().find(|field| field.name == name).and_then(|field| match &field.value {
                PayloadValue::Text(text) => Some(text.clone()),
                PayloadValue::Label(label) => Some(label.to_string()),
                _ => None,
            })
        }
        EventPayload::RunFinish { .. } => None,
    }
}

fn number_field(event: &EventDraft, name: &str) -> Option<u64> {
    match &event.payload {
        EventPayload::Fields(fields) => {
            fields.iter().find(|field| field.name == name).and_then(|field| match &field.value {
                PayloadValue::Number(number) => Some(*number),
                _ => None,
            })
        }
        EventPayload::RunFinish { .. } => None,
    }
}

impl World {
    fn with(config: MailboxConfig, has_pending_store: bool, has_publisher: bool) -> World {
        let executor =
            ExecutorFacilities { has_commit_coordinator: false, has_staged_coordinator: false };
        let consumer = "test-consumer".to_string();
        let mut mailbox = if has_pending_store {
            Mailbox::new_with_pending_thread_run_store(executor, consumer, config)
        } else {
            Mailbox::new(executor, consumer, config)
        };
        if has_publisher {
            mailbox = mailbox.with_server_event_publisher("server".to_string(), None).unwrap();
        }
        World {
            mailbox,
            now: 1_000_000,
            dispatches: Vec::new(),
            epochs: HashMap::new(),
            runs: Vec::new(),
            logs: HashMap::new(),
            pending: HashMap::new(),
            workers: WorkerTable::new(),
            repairs: CheckpointRepairQueue::new(),
            events: Vec::new(),
            started: Vec::new(),
            results: VecDeque::new(),
            requests: Vec::new(),
            failures_emitted: Vec::new(),
            runtime_cancels: false,
            runtime_takes_decisions: false,
            runtime_takes_messages: false,
            wakes: Vec::new(),
            remote: LiveDeliveryOutcome::NoSubscriber,
            delivered: Vec::new(),
            releases: true,
            faults: HashMap::new(),
            commit_conflicts: 0,
            retracted: None,
            open_runs: HashMap::new(),
            steered: Vec::new(),
            next_token: 0,
            next_pending: 0,
        }
    }

    fn new() -> World {
        World::with(MailboxConfig::default(), false, true)
    }

    fn with_pending() -> World {
        World::with(MailboxConfig::default(), true, true)
    }

    fn fail(&mut self, operation: &'static str, times: usize) {
        self.faults.insert(operation, times);
    }

    fn fault(&mut self, operation: &'static str) -> Stored<()> {
        match self.faults.get_mut(operation) {
            Some(left) if *left > 0 => {
                *left -= 1;
                Err(StorageError::Other(format!("injected {operation} failure")))
            }
            _ => Ok(()),
        }
    }

    // The stores.

    fn find(&mut self, dispatch_id: &str) -> Option<&mut RunDispatch> {
        self.dispatches.iter_mut().find(|dispatch| dispatch.dispatch_id == dispatch_id)
    }

    fn load_dispatch(&mut self, dispatch_id: &str) -> Stored<Option<RunDispatch>> {
        self.fault("load_dispatch")?;
        let loaded = self.find(dispatch_id).map(|dispatch| dispatch.clone());
        if let Some(dispatch) = &loaded {
            if self.fault("interrupt_on_load").is_err() {
                self.interrupt_in_store(&dispatch.thread_id)?;
            }
        }
        Ok(loaded)
    }

    fn dispatch(&mut self, dispatch_id: &str) -> RunDispatch {
        self.find(dispatch_id).unwrap().clone()
    }

    fn held(&mut self, dispatch_id: &str, token: &str) -> Stored<&mut RunDispatch> {
        match self.find(dispatch_id) {
            Some(dispatch)
                if dispatch.status == RunDispatchStatus::Claimed
                    && dispatch.claim_token.as_deref() == Some(token) =>
            {
                Ok(dispatch)
            }
            _ => Err(StorageError::Validation("claim lost".to_string())),
        }
    }

    fn enqueue(&mut self, dispatch: &RunDispatch) -> Stored<()> {
        self.fault("enqueue")?;
        if self.find(&dispatch.dispatch_id).is_some() {
            return Err(StorageError::AlreadyExists(dispatch.dispatch_id.clone()));
        }
        let mut queued = dispatch.clone();
        queued.dispatch_epoch = self.epochs.get(&dispatch.thread_id).copied().unwrap_or(0);
        self.dispatches.push(queued);
        Ok(())
    }

    fn thread_is_claimed(&self, thread_id: &str) -> bool {
        self.dispatches
            .iter()
            .any(|d| d.thread_id == thread_id && d.status == RunDispatchStatus::Claimed)
    }

    fn take(&mut self, at: usize, consumer: &str, lease_ms: u64) -> RunDispatch {
        self.next_token += 1;
        let token = format!("token-{}", self.next_token);
        let now = self.now;
        let dispatch = &mut self.dispatches[at];
        dispatch.status = RunDispatchStatus::Claimed;
        dispatch.claim_token = Some(token);
        dispatch.claimed_by = Some(consumer.to_string());
        dispatch.lease_until = Some(now + lease_ms);
        dispatch.updated_at = now;
        dispatch.clone()
    }

    fn claim_as(
        &mut self,
        thread_id: &str,
        consumer: &str,
        lease_ms: u64,
    ) -> Stored<Vec<RunDispatch>> {
        self.fault("claim")?;
        if self.thread_is_claimed(thread_id) {
            return Ok(Vec::new());
        }
        let now = self.now;
        let next = self.dispatches.iter().position(|d| {
            d.thread_id == thread_id
                && d.status == RunDispatchStatus::Queued
                && d.available_at <= now
        });
        Ok(next.map(|at| self.take(at, consumer, lease_ms)).into_iter().collect())
    }

    fn claim_dispatch(&mut self, dispatch_id: &str) -> Stored<Option<RunDispatch>> {
        self.fault("claim_dispatch")?;
        if self.fault("claim_empty").is_err() {
            return Ok(None);
        }
        let Some(at) = self.dispatches.iter().position(|d| d.dispatch_id == dispatch_id) else {
            return Ok(None);
        };
        let thread_id = self.dispatches[at].thread_id.clone();
        if self.dispatches[at].status != RunDispatchStatus::Queued
            || self.thread_is_claimed(&thread_id)
        {
            return Ok(None);
        }
        let lease_ms = self.mailbox.config.lease_ms;
        let consumer = self.mailbox.consumer_id.clone();
        Ok(Some(self.take(at, &consumer, lease_ms)))
    }

    fn cancel_in_store(&mut self, dispatch_id: &str) -> Stored<Option<RunDispatch>> {
        self.fault("cancel")?;
        let now = self.now;
        match self.find(dispatch_id) {
            Some(dispatch) if dispatch.status == RunDispatchStatus::Queued => {
                release(dispatch, RunDispatchStatus::Cancelled, now);
                Ok(Some(dispatch.clone()))
            }
            _ => Ok(None),
        }
    }

    fn interrupt_in_store(&mut self, thread_id: &str) -> Stored<MailboxInterruptDetails> {
        self.fault("interrupt")?;
        let now = self.now;
        let epoch = self.epochs.entry(thread_id.to_string()).or_insert(0);
        *epoch += 1;
        let new_dispatch_epoch = *epoch;
        let mut active_dispatch = None;
        let mut superseded_dispatches = Vec::new();
        for dispatch in self.dispatches.iter_mut().filter(|d| d.thread_id == thread_id) {
            match dispatch.status {
                RunDispatchStatus::Claimed => active_dispatch = Some(dispatch.clone()),
                RunDispatchStatus::Queued => {
                    release(dispatch, RunDispatchStatus::Superseded, now);
                    superseded_dispatches.push(dispatch.clone());
                }
                _ => {}
            }
        }
        Ok(MailboxInterruptDetails {
            new_dispatch_epoch,
            active_dispatch,
            superseded_count: superseded_dispatches.len(),
            superseded_dispatches,
        })
    }

    fn reclaim(&mut self) -> Stored<Vec<RunDispatch>> {
        self.fault("reclaim")?;
        let now = self.now;
        let mut reclaimed = Vec::new();
        for dispatch in self.dispatches.iter_mut() {
            let expired = dispatch.status == RunDispatchStatus::Claimed
                && dispatch.lease_until.is_some_and(|until| until < now);
            if expired && reclaimed.len() < RECLAIM_LIMIT {
                dispatch.attempt_count += 1;
                if dispatch.attempt_count >= dispatch.max_attempts {
                    release(dispatch, RunDispatchStatus::DeadLetter, now);
                } else {
                    release(dispatch, RunDispatchStatus::Queued, now);
                }
                reclaimed.push(dispatch.clone());
            }
        }
        Ok(reclaimed)
    }

    fn queued_threads(&mut self) -> Stored<Vec<String>> {
        self.fault("queued_threads")?;
        let mut threads: Vec<String> = self
            .dispatches
            .iter()
            .filter(|d| d.status == RunDispatchStatus::Queued)
            .map(|d| d.thread_id.clone())
            .collect();
        threads.sort();
        threads.dedup();
        Ok(threads)
    }

    fn open_dispatches(&self, thread_id: &str) -> Vec<RunDispatch> {
        let open = [RunDispatchStatus::Queued, RunDispatchStatus::Claimed];
        self.dispatches
            .iter()
            .filter(|d| d.thread_id == thread_id && open.contains(&d.status))
            .cloned()
            .collect()
    }

    fn of_thread(&self, thread_id: &str) -> Vec<RunDispatch> {
        self.dispatches.iter().filter(|d| d.thread_id == thread_id).cloned().collect()
    }

    fn load_run(&mut self, run_id: &str) -> Stored<Option<RunRecord>> {
        self.fault("load_run")?;
        Ok(self.runs.iter().find(|run| run.run_id == run_id).cloned())
    }

    fn run(&self, run_id: &str) -> RunRecord {
        self.runs.iter().find(|run| run.run_id == run_id).unwrap().clone()
    }

    fn latest_run(&mut self, thread_id: &str) -> Stored<Option<RunRecord>> {
        self.fault("latest_run")?;
        Ok(self.runs.iter().rev().find(|run| run.thread_id == thread_id).cloned())
    }

    fn open_run_of_thread(&self, thread_id: &str) -> Option<Option<String>> {
        if let Some(open) = self.open_runs.get(thread_id) {
            return Some(Some(open.clone()));
        }
        self.logs.get(thread_id).map(|_| {
            self.runs
                .iter()
                .rev()
                .find(|run| run.thread_id == thread_id && run.status != RunStatus::Done)
                .map(|run| run.run_id.clone())
        })
    }

    fn list_runs(&mut self, status: Option<RunStatus>, limit: usize, offset: usize) -> Stored<RunPage> {
        self.fault("list_runs")?;
        let listed: Vec<&RunRecord> = self
            .runs
            .iter()
            .filter(|run| status.is_none() || Some(run.status) == status)
            .skip(offset)
            .collect();
        let has_more = listed.len() > limit;
        Ok(RunPage { items: listed.into_iter().take(limit).cloned().collect(), has_more })
    }

    fn messages(&self, thread_id: &str) -> Vec<Message> {
        self.logs.get(thread_id).cloned().unwrap_or_default()
    }

    fn put_run(&mut self, record: &RunRecord) {
        match self.runs.iter().position(|run| run.run_id == record.run_id) {
            Some(at) => self.runs[at] = record.clone(),
            None => self.runs.push(record.clone()),
        }
    }

    fn seed(&mut self, thread_id: &str, messages: Vec<Message>, record: RunRecord) {
        self.logs.insert(thread_id.to_string(), messages);
        self.put_run(&record);
    }

    fn commit(
        &mut self,
        thread_id: &str,
        delta: &[Message],
        expected: usize,
        record: &RunRecord,
    ) -> CommitOutcome {
        if self.commit_conflicts > 0 {
            self.commit_conflicts -= 1;
            let other = user("from another instance").with_id(format!("other-{}", self.next_token));
            self.next_token += 1;
            self.logs.entry(thread_id.to_string()).or_default().push(other);
        }
        let failed = self.fault("commit");
        let log = self.logs.entry(thread_id.to_string()).or_default();
        if failed.is_err() {
            let error = "injected commit failure".to_string();
            return commit_run_append(Err(CommitError::Other { error }));
        }
        if log.len() != expected {
            return commit_run_append(Err(CommitError::MessageVersionConflict));
        }
        log.extend_from_slice(delta);
        self.put_run(record);
        commit_run_append(Ok(()))
    }

    fn append_pending(
        &mut self,
        thread_id: &str,
        messages: Vec<Message>,
        mode: &DeliveryMode,
    ) -> Vec<PendingMessageRecord> {
        let mut staged = Vec::new();
        for message in messages {
            self.next_pending += 1;
            let fresh = format!("pending-{}", self.next_pending);
            let queue = self.pending.entry(thread_id.to_string()).or_default();
            let entry = PendingMessageRecord {
                pending_id: message.id.clone().unwrap_or(fresh),
                thread_id: thread_id.to_string(),
                position: queue.len() as u64 + 1,
                message,
                revision: 1,
                delivery_mode: mode.clone(),
                created_at: None,
                updated_at: None,
            };
            queue.push(entry.clone());
            staged.push(entry);
        }
        staged
    }

    fn select(
        queue: &[PendingMessageRecord],
        boundary: DeliveryBoundary,
        run_id: Option<&str>,
    ) -> Vec<usize> {
        let mut selected = Vec::new();
        for (at, entry) in queue.iter().enumerate() {
            let mode = &entry.delivery_mode;
            let targeted = match &mode.target_run_id {
                Some(target) => run_id == Some(target.as_str()),
                None => true,
            };
            if mode.boundary == boundary && targeted {
                selected.push(at);
            } else if mode.barrier {
                break;
            }
        }
        selected
    }

    fn publish(&mut self, event: EventDraft) {
        if self.mailbox.has_publisher && self.fault("publish").is_ok() {
            self.events.push(event);
        }
    }

    fn publish_due(&mut self, event: Option<EventDraft>) {
        if let Some(event) = event {
            self.publish(event);
        }
    }

    fn publish_all(&mut self, events: Vec<EventDraft>) -> Result<(), Fault> {
        for event in events {
            self.fault("publish")
                .map_err(|error| checkpoint_event_not_recorded(&event, error.to_text()))?;
            self.events.push(event);
        }
        Ok(())
    }

    fn kinds(&self) -> Vec<&'static str> {
        self.events.iter().map(|event| event.kind).collect()
    }

    fn event(&self, kind: &str) -> &EventDraft {
        self.events.iter().find(|event| event.kind == kind).unwrap()
    }

    fn publish_checkpoint(
        &mut self,
        thread_id: &String,
        run_id: &String,
        log: &Vec<Message>,
        first: u64,
        last: u64,
    ) -> Result<(), Fault> {
        let events = record_thread_message_checkpoint_events(
            self.mailbox.has_publisher,
            thread_id,
            run_id,
            log,
            first,
            last,
        )?;
        self.publish_all(events)
    }

    fn refresh_cache(&mut self, thread_id: &str, messages: Vec<Message>, record: RunRecord) {
        let context = Context { messages, latest: Some(record) };
        self.workers.refresh_worker_checkpoint_cache(thread_id, context);
    }

    fn deliver_live(&mut self, target: &LiveRunTarget, command: LiveRunCommand) -> LiveDeliveryOutcome {
        self.delivered.push((target.run_id.clone(), command));
        self.remote
    }

    // The flows.

    fn mark_ended(&mut self, dispatch: RunDispatch, kind: TerminalKind) -> Result<bool, Fault> {
        let mut mark = match kind {
            TerminalKind::Superseded => {
                TerminalMark::mark_superseded_dispatch_run_cancelled(dispatch)
            }
            TerminalKind::Cancelled => {
                TerminalMark::mark_cancelled_dispatch_run_cancelled(dispatch)
            }
            TerminalKind::DeadLetter => TerminalMark::mark_dead_letter_dispatch_run_error(dispatch),
        };
        loop {
            let thread_id = mark.dispatch.thread_id.clone();
            let reply = match &mark.step {
                MarkStep::LoadRun => MarkReply::Run {
                    result: self.load_run(&mark.dispatch.run_id),
                    now: self.now / 1_000,
                },
                MarkStep::LoadCommitted { .. } => {
                    MarkReply::Messages(Ok(self.logs.get(&thread_id).cloned()))
                }
                MarkStep::Commit { record, log, .. } => {
                    MarkReply::Committed(self.commit(&thread_id, &[], log.len(), record))
                }
                MarkStep::RefreshCache { record, log } => {
                    self.refresh_cache(&thread_id, log.clone(), record.clone());
                    MarkReply::Performed
                }
                MarkStep::PublishCancelled => {
                    self.publish_due(mark.event());
                    MarkReply::Performed
                }
                MarkStep::Done { .. } => break,
            };
            assert!(mark.expects(&reply));
            mark = mark.advance(reply);
        }
        match mark.step {
            MarkStep::Done { outcome } => outcome,
            _ => unreachable!(),
        }
    }

    fn reconcile_ended(&mut self) {
        let batch = 2;
        let mut scan = TerminalReconciliation::reconcile_terminal_dispatches(batch);
        loop {
            let reply = match &scan.step {
                ReconcileStep::List { offset } => ReconcileReply::Listed(Ok(self
                    .dispatches
                    .iter()
                    .filter(|d| {
                        d.status != RunDispatchStatus::Queued
                            && d.status != RunDispatchStatus::Claimed
                    })
                    .skip(*offset)
                    .take(batch)
                    .cloned()
                    .collect())),
                ReconcileStep::Reconcile { .. } => {
                    if let Some((dispatch, Some(kind))) = scan.due() {
                        let _ = self.mark_ended(dispatch.clone(), kind);
                    }
                    ReconcileReply::Performed
                }
                ReconcileStep::Done => return,
            };
            assert!(scan.expects(&reply));
            scan = scan.advance(reply);
        }
    }

    fn route(&mut self, id: &str, step: &RouteStep, command: LiveRunCommand) -> RouteReply {
        match step {
            RouteStep::LoadDispatch => RouteReply::Dispatch(self.load_dispatch(id)),
            RouteStep::LoadRun => RouteReply::Run(self.load_run(id)),
            RouteStep::LatestRun => RouteReply::Run(self.latest_run(id)),
            RouteStep::Deliver { target } => {
                RouteReply::Delivered(Ok(self.deliver_live(target, command)))
            }
            RouteStep::Done { .. } => unreachable!(),
        }
    }

    fn cancel(&mut self, id: &str) -> Result<bool, MailboxError> {
        let mut cancellation = self.mailbox.cancel(id.to_string());
        loop {
            let reply = match &cancellation.step {
                CancelStep::StoreCancel => CancelReply::Cancelled(self.cancel_in_store(id)),
                CancelStep::Mark { dispatch } => {
                    let _ = self.mark_ended(dispatch.clone(), TerminalKind::Cancelled);
                    CancelReply::Performed
                }
                CancelStep::RuntimeCancel => CancelReply::Accepted(self.runtime_cancels),
                CancelStep::Route { route } => {
                    CancelReply::Routed(self.route(id, route, LiveRunCommand::Cancel))
                }
                CancelStep::Done { .. } => break,
            };
            assert!(cancellation.expects(&reply));
            cancellation = cancellation.advance(reply);
        }
        match cancellation.step {
            CancelStep::Done { outcome } => outcome.map_err(|fault| fault.to_error()),
            _ => unreachable!(),
        }
    }

    fn await_release(&mut self, dispatch_id: &str) -> Stored<bool> {
        if self.releases {
            let now = self.now;
            if let Some(dispatch) = self.find(dispatch_id) {
                release(dispatch, RunDispatchStatus::Acked, now);
            }
        }
        Ok(self.releases)
    }

    fn settle(&mut self, aftermath: &Aftermath) -> AftermathReply {
        match &aftermath.step {
            AftermathStep::MarkSuperseded { at } => {
                let superseded = aftermath.details.superseded_dispatches[*at].clone();
                let _ = self.mark_ended(superseded, TerminalKind::Superseded);
                AftermathReply::Performed
            }
            AftermathStep::CancelActive { cancel } => {
                let active = aftermath.details.active_dispatch.as_ref().unwrap();
                AftermathReply::Active(match cancel {
                    ActiveStep::CancelAndWait | ActiveStep::Cancel => {
                        ActiveReply::Accepted(self.runtime_cancels)
                    }
                    ActiveStep::Deliver { target } => ActiveReply::Delivered(Ok(
                        self.deliver_live(target, LiveRunCommand::Cancel)
                    )),
                    ActiveStep::AwaitRelease { .. } => {
                        ActiveReply::Released(self.await_release(&active.dispatch_id))
                    }
                    ActiveStep::PublishTimeout { .. } => {
                        self.publish_due(aftermath.event(CANCEL_WAIT_MS));
                        ActiveReply::Performed
                    }
                    ActiveStep::Done { .. } => unreachable!(),
                })
            }
            AftermathStep::PublishInterrupted => {
                self.publish_due(aftermath.event(CANCEL_WAIT_MS));
                AftermathReply::Performed
            }
            AftermathStep::Done { .. } => unreachable!(),
        }
    }

    fn interrupt(&mut self, thread_id: &str) -> Result<MailboxInterruptDetails, MailboxError> {
        let mut interrupt = self.mailbox.interrupt_detailed(thread_id.to_string());
        loop {
            let reply = match &interrupt.step {
                InterruptStep::Interrupt => {
                    InterruptReply::Interrupted(self.interrupt_in_store(thread_id))
                }
                InterruptStep::Settle { aftermath } => {
                    InterruptReply::Settled(self.settle(aftermath))
                }
                InterruptStep::Done { .. } => break,
            };
            assert!(interrupt.expects(&reply));
            interrupt = interrupt.advance(reply);
        }
        match interrupt.step {
            InterruptStep::Done { outcome } => outcome.map_err(|fault| fault.to_error()),
            _ => unreachable!(),
        }
    }

    fn decide(&mut self, id: &str, tool_call_id: &str, resume: ToolCallResume) -> bool {
        let mut delivery =
            self.mailbox.send_decision_live(id.to_string(), tool_call_id.to_string(), resume);
        loop {
            let reply = match &delivery.step {
                DecisionStep::SendLocal => DecisionReply::Accepted(self.runtime_takes_decisions),
                DecisionStep::FindDispatch => DecisionReply::Dispatch(self.load_dispatch(id)),
                DecisionStep::FindRun => DecisionReply::Run(self.load_run(id)),
                DecisionStep::FindLatest => DecisionReply::Run(self.latest_run(id)),
                DecisionStep::Route { route } => {
                    DecisionReply::Routed(self.route(id, route, delivery.command()))
                }
                DecisionStep::Publish { target, delivery_path } => {
                    let (received, resolved) = record_mailbox_decision_received(
                        target,
                        &delivery.tool_call_id,
                        &delivery.resume,
                        delivery_path,
                    );
                    self.publish(received);
                    if let Some(resolved) = resolved {
                        self.publish(resolved);
                    }
                    DecisionReply::Performed
                }
                DecisionStep::Done { .. } => break,
            };
            assert!(delivery.expects(&reply));
            delivery = delivery.advance(reply);
        }
        match delivery.step {
            DecisionStep::Done { outcome } => outcome.unwrap(),
            _ => unreachable!(),
        }
    }

    fn freeze_once(&mut self, freeze: &PendingFreeze) -> FreezeReply {
        let scope = &freeze.scope;
        match &freeze.step {
            FreezeStep::LoadCommitted { .. } => {
                FreezeReply::Committed(Ok(self.logs.get(&scope.thread_id).cloned()))
            }
            FreezeStep::LoadPending { .. } => FreezeReply::Pending(Ok(
                self.pending.get(&scope.thread_id).cloned().unwrap_or_default(),
            )),
            FreezeStep::Select { queue, .. } => {
                let mut indexes = World::select(queue, scope.boundary, Some(&scope.run_id));
                if self.fault("select").is_err() {
                    indexes.clear();
                }
                FreezeReply::Selected { indexes, now: self.now / 1_000 }
            }
            FreezeStep::Commit { attempt, existing, selected_pending_ids, .. } => {
                FreezeReply::Frozen(self.append_and_freeze(
                    freeze,
                    existing.len(),
                    selected_pending_ids,
                    &attempt.record,
                ))
            }
            FreezeStep::Publish { log, first_seq, last_seq, .. } => {
                let published = self.publish_checkpoint(
                    &scope.thread_id,
                    &scope.run_id,
                    log,
                    *first_seq,
                    *last_seq,
                );
                FreezeReply::Published { failed: published.is_err() }
            }
            FreezeStep::QueueRepair { task, .. } => {
                let has_publisher = self.mailbox.has_publisher;
                self.repairs.enqueue_checkpoint_repair(has_publisher, task.clone());
                FreezeReply::Performed
            }
            FreezeStep::RefreshCache { record, log, .. } => {
                self.refresh_cache(&scope.thread_id, log.clone(), record.clone());
                FreezeReply::Performed
            }
            FreezeStep::Done { .. } => unreachable!(),
        }
    }

    fn append_and_freeze(
        &mut self,
        freeze: &PendingFreeze,
        expected: usize,
        selected: &[String],
        record: &RunRecord,
    ) -> Stored<Vec<MessageRecord>> {
        let thread_id = freeze.scope.thread_id.clone();
        if let Some(retracted) = self.retracted.take() {
            let queue = self.pending.entry(thread_id).or_default();
            queue.retain(|entry| entry.pending_id != retracted);
            return Err(StorageError::VersionConflict {
                expected: expected as u64,
                actual: expected as u64 + 1,
            });
        }
        if self.commit_conflicts > 0 {
            self.commit_conflicts -= 1;
            let other = user("from another instance").with_id("other".to_string());
            self.logs.entry(thread_id.clone()).or_default().push(other);
        }
        let actual = self.messages(&thread_id).len();
        if actual != expected {
            return Err(StorageError::VersionConflict {
                expected: expected as u64,
                actual: actual as u64,
            });
        }
        if let Some(append) = &freeze.scope.append {
            self.append_pending(&thread_id, append.messages.clone(), &append.mode);
        }
        let queue = self.pending.entry(thread_id.clone()).or_default();
        let mut frozen = Vec::new();
        let mut kept = Vec::new();
        for entry in queue.drain(..) {
            if selected.contains(&entry.pending_id) {
                frozen.push(MessageRecord {
                    seq: (expected + frozen.len() + 1) as u64,
                    message: entry.message,
                });
            } else {
                kept.push(entry);
            }
        }
        *queue = kept;
        let log = self.logs.entry(thread_id).or_default();
        log.extend(frozen.iter().map(|record| record.message.clone()));
        self.put_run(record);
        Ok(frozen)
    }

    /// Freeze what is due for a run that is created with it. Returns the id of the run,
    /// where something was frozen, and its record.
    fn prepare_boundary(
        &mut self,
        thread_id: &str,
        boundary: DeliveryBoundary,
        run_id: &str,
    ) -> (Option<String>, RunRecord) {
        let request = RunActivation::new(thread_id.to_string(), Vec::new())
            .with_run_id_hint(run_id.to_string());
        let template =
            run_activation_snapshot(&request, empty_input(), "resolution-test".to_string());
        let scope = FreezeScope {
            thread_id: thread_id.to_string(),
            run_id: run_id.to_string(),
            boundary,
            append: None,
        };
        let record = run_record(run_id, thread_id, "agent-1", RunStatus::Created);
        let mut freeze = PendingFreeze::prepare_pending_boundary_snapshot_for_run(
            self.mailbox.has_pending_store,
            scope,
            template,
            record,
        );
        while !matches!(freeze.step, FreezeStep::Done { .. }) {
            let reply = self.freeze_once(&freeze);
            assert!(freeze.expects(&reply));
            freeze = freeze.advance(reply);
        }
        match freeze.step {
            FreezeStep::Done { record, outcome } => {
                (outcome.unwrap().map(|_| run_id.to_string()), record)
            }
            _ => unreachable!(),
        }
    }

    fn freeze_boundary(
        &mut self,
        thread_id: &str,
        run_id: &str,
        boundary: DeliveryBoundary,
        template: RunActivationSnapshot,
    ) -> Result<Option<Vec<Message>>, AgentLoopError> {
        let mut freeze = BoundaryFreeze::freeze_pending_boundary(
            thread_id.to_string(),
            run_id.to_string(),
            boundary,
            template,
        );
        loop {
            let reply = match &freeze.step {
                BoundaryStep::LoadRun { .. } => BoundaryReply::Run(self.load_run(run_id)),
                BoundaryStep::Freeze { freeze: inner } => {
                    BoundaryReply::Freezing(self.freeze_once(inner))
                }
                BoundaryStep::Done { .. } => break,
            };
            assert!(freeze.expects(&reply));
            freeze = freeze.advance(reply);
        }
        match freeze.step {
            BoundaryStep::Done { outcome } => outcome.map_err(|fault| fault.to_loop_error()),
            _ => unreachable!(),
        }
    }

    fn look_up_once(&mut self, lookup: &WaitingLookup) -> WaitingReply {
        match &lookup.step {
            WaitingStep::LoadThread => {
                WaitingReply::Thread(Ok(self.open_run_of_thread(&lookup.thread_id)))
            }
            WaitingStep::LoadOpenRun { open_run_id } => {
                WaitingReply::Run(self.load_run(open_run_id))
            }
            WaitingStep::LatestRun => WaitingReply::Run(self.latest_run(&lookup.thread_id)),
            WaitingStep::Done { .. } => unreachable!(),
        }
    }

    fn reusable_waiting_run(&mut self, thread_id: &str) -> Result<Option<String>, Fault> {
        let mut lookup = WaitingLookup::reusable_waiting_run_id(thread_id.to_string());
        while !matches!(lookup.step, WaitingStep::Done { .. }) {
            let reply = self.look_up_once(&lookup);
            assert!(lookup.expects(&reply));
            lookup = lookup.advance(reply);
        }
        match lookup.step {
            WaitingStep::Done { outcome } => outcome,
            _ => unreachable!(),
        }
    }

    fn resolve(scope: &ResolutionScope) -> Result<String, String> {
        match scope {
            ResolutionScope::Pinned(id) => Ok(id.clone()),
            ResolutionScope::Live => Ok("live-resolution".to_string()),
        }
    }

    fn prepare_once(&mut self, preparation: &RunPreparation) -> PrepareReply {
        let thread_id = &preparation.scope.thread_id;
        match &preparation.step {
            PrepareStep::FindWaiting { lookup, .. } => {
                PrepareReply::Waiting(self.look_up_once(lookup))
            }
            PrepareStep::LatestRun { .. } => PrepareReply::Run(self.latest_run(thread_id)),
            PrepareStep::LoadRun { ids, .. } => PrepareReply::Run(self.load_run(&ids.run_id)),
            PrepareStep::Resolve { scope, .. } => PrepareReply::Resolved {
                result: match self.fault("resolve") {
                    Ok(()) => World::resolve(scope),
                    Err(error) => Err(error.to_text()),
                },
                now: self.now / 1_000,
            },
            PrepareStep::Freeze { freeze, .. } => PrepareReply::Freezing(self.freeze_once(freeze)),
            PrepareStep::LoadCommitted { .. } => PrepareReply::Messages {
                result: Ok(self.logs.get(thread_id).cloned()),
                now: self.now / 1_000,
            },
            PrepareStep::Commit { messages, record, existing, .. } => PrepareReply::Committed(
                self.commit(thread_id, messages, existing.len(), record),
            ),
            PrepareStep::Publish { ids, log, first_seq, last_seq, .. } => {
                let _ =
                    self.publish_checkpoint(thread_id, &ids.run_id, log, *first_seq, *last_seq);
                PrepareReply::Performed
            }
            PrepareStep::RefreshCache { record, log, .. } => {
                self.refresh_cache(thread_id, log.clone(), record.clone());
                PrepareReply::Performed
            }
            PrepareStep::Done { .. } => unreachable!(),
        }
    }

    /// Prepare a run. Returns the request with its ids, and the id of the run.
    fn prepare(&mut self, request: RunActivation) -> Result<(RunActivation, String), MailboxError> {
        let (thread_id, messages) = validate_run_inputs(
            request.intent.thread_id.clone(),
            request.messages.clone(),
            request.resumes(),
        )?;
        let scope =
            PrepareScope { thread_id, has_pending_store: self.mailbox.has_pending_store };
        let mut preparation = RunPreparation::prepare_run_for_dispatch(scope, request, messages);
        while !matches!(preparation.step, PrepareStep::Done { .. }) {
            let reply = self.prepare_once(&preparation);
            assert!(preparation.expects(&reply));
            preparation = preparation.advance(reply);
        }
        match preparation.step {
            PrepareStep::Done { outcome } => match outcome {
                Ok(run_id) => Ok((preparation.request, run_id)),
                Err(fault) => Err(fault.to_error()),
            },
            _ => unreachable!(),
        }
    }

    /// Prepare a run and build its dispatch.
    fn prepare_queued(&mut self, thread_id: &str, text: &str) -> RunDispatch {
        let (prepared, _) = self.prepare(request(thread_id, text)).unwrap();
        let max_attempts = self.mailbox.config.default_max_attempts;
        build_dispatch(&prepared, thread_id, max_attempts, self.now).unwrap()
    }

    fn enqueue_prepared(&mut self, thread_id: &str, text: &str) -> RunDispatch {
        let dispatch = self.prepare_queued(thread_id, text);
        self.enqueue(&dispatch).unwrap();
        dispatch
    }

    /// Let a worker run a dispatch, with a handle that is told from others by a number.
    fn run_worker(
        &mut self,
        thread_id: &str,
        dispatch_id: &str,
        run_id: &str,
        context: Option<Context>,
    ) {
        self.workers.get_or_create_worker(&thread_id.to_string());
        self.next_token += 1;
        self.workers.start_running(
            &thread_id.to_string(),
            dispatch_id.to_string(),
            run_id.to_string(),
            self.next_token,
            context,
        );
    }

    fn start(&mut self, run_id: &str, claimed: &RunDispatch, claim_token: &str) {
        let context = Context {
            messages: self.messages(&claimed.thread_id),
            latest: self.runs.iter().rev().find(|r| r.thread_id == claimed.thread_id).cloned(),
        };
        self.next_token += 1;
        self.workers.start_running(
            &claimed.thread_id,
            claimed.dispatch_id.clone(),
            run_id.to_string(),
            self.next_token,
            Some(context),
        );
        self.started.push((claimed.clone(), claim_token.to_string()));
    }

    fn try_next(&mut self, thread_id: &str) -> DispatchAttempt {
        let mut step = try_dispatch_next(self.workers.try_claim(thread_id));
        loop {
            let reply = match &step {
                ClaimStep::Claim => {
                    let consumer = self.mailbox.consumer_id.clone();
                    let lease_ms = self.mailbox.config.lease_ms;
                    ClaimReply::Claimed(self.claim_as(thread_id, &consumer, lease_ms))
                }
                ClaimStep::Revert { .. } => {
                    self.workers.revert_claiming_to_idle(thread_id);
                    ClaimReply::Performed
                }
                ClaimStep::Start { dispatch, claim_token } => {
                    self.start(&dispatch.run_id, dispatch, claim_token);
                    ClaimReply::Performed
                }
                ClaimStep::Done { attempt } => return *attempt,
            };
            assert!(claim_expects(&step, &reply));
            step = dispatch_next_claim(step, reply);
        }
    }

    fn kick(&mut self, thread_id: &str) -> DispatchAttempt {
        self.workers.get_or_create_worker(&thread_id.to_string());
        self.try_next(thread_id)
    }

    fn submit_once(&mut self, submission: &Submission) -> SubmitReply {
        match &submission.step {
            SubmitStep::LoadPending { draft } => SubmitReply::Pending(Ok(
                self.pending.get(&draft.thread_id).cloned().unwrap_or_default(),
            )),
            SubmitStep::Select { queue, .. } => SubmitReply::Selected(
                World::select(queue, DeliveryBoundary::Interrupt, None).len(),
            ),
            SubmitStep::Interrupt { draft } => {
                SubmitReply::Interrupted(self.interrupt_in_store(&draft.thread_id))
            }
            SubmitStep::Settle { aftermath, .. } => SubmitReply::Settling(self.settle(aftermath)),
            SubmitStep::CancelAndWait { .. } => SubmitReply::Accepted(self.runtime_cancels),
            SubmitStep::Prepare { preparation } => SubmitReply::Preparing {
                reply: self.prepare_once(preparation),
                now: self.now,
            },
            SubmitStep::Enqueue { dispatch, .. } => match self.enqueue(dispatch) {
                Ok(()) => SubmitReply::Queued,
                Err(error) => SubmitReply::NotQueued(error),
            },
            SubmitStep::PublishSubmitFailed { .. }
            | SubmitStep::PublishResumeFailed { .. }
            | SubmitStep::PublishQueued { .. } => {
                self.publish_due(submission.event(CANCEL_WAIT_MS));
                SubmitReply::Performed
            }
            SubmitStep::Claim { dispatch, .. } => {
                SubmitReply::Claimed(self.claim_dispatch(&dispatch.dispatch_id))
            }
            SubmitStep::Start { run_id, claimed, claim_token, .. } => {
                self.start(run_id, claimed, claim_token);
                SubmitReply::Performed
            }
            SubmitStep::CancelOrphan { dispatch } => {
                SubmitReply::Cancelled(self.cancel_in_store(&dispatch.dispatch_id))
            }
            SubmitStep::MarkOrphan { cancelled } => {
                let _ = self.mark_ended(cancelled.clone(), TerminalKind::Cancelled);
                SubmitReply::Performed
            }
            SubmitStep::ReloadOrphan { dispatch } => {
                SubmitReply::Dispatch(self.load_dispatch(&dispatch.dispatch_id))
            }
            SubmitStep::ReconcileOrphan { ended, kind } => {
                let _ = self.mark_ended(ended.clone(), *kind);
                SubmitReply::Performed
            }
            SubmitStep::DispatchNext { dispatch, .. } => {
                let attempt = self.kick(&dispatch.thread_id);
                SubmitReply::Dispatched { started: attempt.started_execution() }
            }
            SubmitStep::Done { .. } => unreachable!(),
        }
    }

    fn run_submission(&mut self, submission: Submission) -> Result<MailboxSubmitResult, Fault> {
        let mut submission = submission;
        while !matches!(submission.step, SubmitStep::Done { .. }) {
            let reply = self.submit_once(&submission);
            assert!(submission.expects(&reply));
            submission = submission.advance(reply);
        }
        match submission.step {
            SubmitStep::Done { outcome } => outcome,
            _ => unreachable!(),
        }
    }

    fn submit(&mut self, request: RunActivation) -> Result<MailboxSubmitResult, MailboxError> {
        let submission = self.mailbox.submit(request);
        self.run_submission(submission).map_err(|fault| fault.to_error())
    }

    fn submit_background(
        &mut self,
        request: RunActivation,
    ) -> Result<MailboxSubmitResult, MailboxError> {
        let submission = self.mailbox.submit_background(request);
        self.run_submission(submission).map_err(|fault| fault.to_error())
    }

    fn deliver_once(&mut self, delivery: &LiveDelivery) -> LiveReply {
        let thread_id = &delivery.scope.thread_id;
        match &delivery.step {
            LiveStep::StageLocal { messages, mode, .. }
            | LiveStep::StageRemote { messages, mode, .. } => {
                let normalized = normalize_message_ids(messages.clone());
                LiveReply::Staged(Ok(self.append_pending(thread_id, normalized, mode)))
            }
            LiveStep::WakeLocal { active, .. } => {
                self.wakes.push(active.run_id.clone());
                LiveReply::Accepted(self.runtime_takes_messages)
            }
            LiveStep::SendLocal { messages, .. } => {
                if self.runtime_takes_messages {
                    self.steered.extend(messages.iter().cloned());
                }
                LiveReply::Accepted(self.runtime_takes_messages)
            }
            LiveStep::LatestRun { .. } => LiveReply::Run(self.latest_run(thread_id)),
            LiveStep::WakeRemote { target, .. } => LiveReply::Delivered(Ok(
                self.deliver_live(target, LiveRunCommand::PendingBoundaryWake)
            )),
            LiveStep::SendRemote { target, messages, .. } => LiveReply::Delivered(Ok(
                self.deliver_live(target, LiveRunCommand::Messages(messages.clone()))
            )),
            LiveStep::Cleanup { staged } => {
                if let Some(queue) = self.pending.get_mut(thread_id) {
                    queue.retain(|e| !staged.iter().any(|s| s.pending_id == e.pending_id));
                }
                LiveReply::Performed
            }
            LiveStep::Done { .. } => unreachable!(),
        }
    }

    fn submit_live(
        &mut self,
        request: RunActivation,
        expected_run_id: Option<&str>,
    ) -> Result<MailboxSubmitResult, MailboxError> {
        let local = self
            .workers
            .active_run(&request.intent.thread_id)
            .map(|(dispatch_id, run_id)| ActiveRun { dispatch_id, run_id });
        let mut flow = self.mailbox.submit_live_then_queue(
            request,
            expected_run_id.map(|id| id.to_string()),
            local,
        );
        loop {
            let reply = match &flow.step {
                LiveQueueStep::Live { delivery, .. } => {
                    LiveQueueReply::Delivering(self.deliver_once(delivery))
                }
                LiveQueueStep::Queue { submission } => {
                    LiveQueueReply::Submitting(self.submit_once(submission))
                }
                LiveQueueStep::Done { .. } => break,
            };
            assert!(flow.expects(&reply));
            flow = flow.advance(reply);
        }
        match flow.step {
            LiveQueueStep::Done { outcome } => outcome.map_err(|fault| fault.to_error()),
            _ => unreachable!(),
        }
    }

    fn reconstruct(&mut self, dispatch: &RunDispatch) -> Result<RunActivation, MailboxError> {
        let cached = self
            .workers
            .get(&dispatch.thread_id)
            .and_then(|worker| worker.thread_ctx.as_ref())
            .and_then(|context| context.latest.clone())
            .filter(|run| run.run_id == dispatch.run_id);
        let mut flow = Reconstruction::reconstruct_run_request(dispatch.clone(), cached);
        loop {
            let reply = match &flow.step {
                ReplayStep::LoadRun => ReplayReply::Run(self.load_run(&dispatch.run_id)),
                ReplayStep::ReadCache { run } => ReplayReply::Cached(
                    self.workers
                        .get(&run.thread_id)
                        .and_then(|worker| worker.thread_ctx.as_ref())
                        .map(|context| context.messages.clone()),
                ),
                ReplayStep::LoadMessage { run, message_id, .. } => {
                    let found = self
                        .messages(&run.thread_id)
                        .into_iter()
                        .zip(1u64..)
                        .find(|(m, _)| m.id.as_deref() == Some(message_id.as_str()))
                        .map(|(message, seq)| MessageRecord { seq, message });
                    ReplayReply::Message(Ok(found))
                }
                ReplayStep::LoadRange { run, range } => ReplayReply::Range(Ok(self
                    .messages(&run.thread_id)
                    .into_iter()
                    .zip(1u64..)
                    .filter(|(_, seq)| range.from_seq <= *seq && *seq <= range.to_seq)
                    .map(|(message, seq)| MessageRecord { seq, message })
                    .collect())),
                ReplayStep::ParseExtras { .. } => {
                    ReplayReply::Extras(Err("no legacy runs here".to_string()))
                }
                ReplayStep::Convert { .. } => {
                    ReplayReply::Converted(Err("no legacy runs here".to_string()))
                }
                ReplayStep::Done { .. } => break,
            };
            assert!(flow.expects(&reply));
            flow = flow.advance(reply);
        }
        match flow.step {
            ReplayStep::Done { outcome } => outcome.map_err(|fault| fault.to_error()),
            _ => unreachable!(),
        }
    }

    fn store_result(
        &mut self,
        id: &str,
        token: &str,
        result: RunDispatchResult,
        now: u64,
    ) -> Stored<()> {
        self.fault("record_result")?;
        let dispatch = self.held(id, token)?;
        dispatch.run_status = Some(result.status);
        dispatch.termination = result.termination;
        dispatch.run_response = result.response;
        dispatch.run_error = result.error;
        dispatch.updated_at = now;
        Ok(())
    }

    fn store_start(&mut self, id: &str, token: &str, instance_id: &str) -> Stored<()> {
        self.fault("record_start")?;
        let dispatch = self.held(id, token)?;
        dispatch.dispatch_instance_id = Some(instance_id.to_string());
        dispatch.run_status = Some(RunStatus::Running);
        Ok(())
    }

    fn store_end(&mut self, id: &str, token: &str, status: RunDispatchStatus) -> Stored<()> {
        let now = self.now;
        release(self.held(id, token)?, status, now);
        Ok(())
    }

    fn run_to_done(&mut self, request: &RunActivation) -> Result<AgentRunResult, AgentLoopError> {
        self.requests.push(request.clone());
        let result = self.results.pop_front().unwrap_or_else(|| ran("done"));
        if let Some(run_id) = &request.persistence.run_id_hint {
            if let Some(run) = self.runs.iter_mut().find(|run| run.run_id == *run_id) {
                if result.is_ok() {
                    run.status = RunStatus::Done;
                    run.termination_reason = Some(TerminationReason::NaturalEnd);
                }
            }
        }
        result
    }

    fn execute_once(&mut self, execution: &ClaimedDispatch) -> ExecutionReply {
        let dispatch = &execution.claim.dispatch;
        let id = dispatch.dispatch_id.as_str();
        let token = execution.claim.claim_token.as_str();
        match &execution.step {
            ExecutionStep::VerifyOwnership
            | ExecutionStep::ReloadUnstarted { .. }
            | ExecutionStep::VerifyAck { .. }
            | ExecutionStep::ReloadRescheduled
            | ExecutionStep::ReloadDeadLetter => ExecutionReply::Dispatch(self.load_dispatch(id)),
            ExecutionStep::ReadEpoch { .. } => ExecutionReply::Epoch {
                result: Ok(self.epochs.get(&dispatch.thread_id).copied().unwrap_or(0)),
                now: self.now,
            },
            ExecutionStep::SupersedeClaim { reason, .. } => {
                let stored = self.store_end(id, token, RunDispatchStatus::Superseded);
                if let Some(superseded) = self.find(id) {
                    superseded.last_error = Some(reason.to_string());
                }
                ExecutionReply::Stored(stored)
            }
            ExecutionStep::MarkSuperseded { dispatch, .. } => {
                let _ = self.mark_ended(dispatch.clone(), TerminalKind::Superseded);
                ExecutionReply::Performed
            }
            ExecutionStep::Reconstruct { .. } => ExecutionReply::Activation {
                result: self.reconstruct(dispatch),
                now: self.now,
            },
            ExecutionStep::RecordFailedStart { session, .. }
            | ExecutionStep::RecordStart { session, .. } => {
                ExecutionReply::Stored(self.store_start(id, token, &session.instance_id))
            }
            ExecutionStep::RecordFailedResult { now, .. }
            | ExecutionStep::RecordResult { now, .. } => {
                let result = execution.run_result().unwrap();
                ExecutionReply::Stored(self.store_result(id, token, result, *now))
            }
            ExecutionStep::PublishSubmitted { .. }
            | ExecutionStep::PublishErrored { .. }
            | ExecutionStep::PublishRescheduled { .. } => {
                self.publish_due(execution.event());
                ExecutionReply::Performed
            }
            ExecutionStep::LoadRun { .. } => ExecutionReply::Run {
                result: self.load_run(&dispatch.run_id),
                now: self.now,
            },
            ExecutionStep::Materialize { .. } => {
                ExecutionReply::Materialized { result: Ok(()), now: self.now }
            }
            ExecutionStep::Resolve { resolution_id, .. } => ExecutionReply::Resolved {
                result: Ok(resolution_id.clone()),
                now: self.now,
            },
            ExecutionStep::Execute { request, .. } => ExecutionReply::Ran {
                result: self.run_to_done(request),
                now: self.now,
            },
            ExecutionStep::Ack { .. } | ExecutionStep::AckAgain { .. } => {
                ExecutionReply::Stored(match self.fault("ack") {
                    Ok(()) => self.store_end(id, token, RunDispatchStatus::Acked),
                    Err(error) => Err(error),
                })
            }
            ExecutionStep::EmitFailure { .. } => {
                self.failures_emitted.push(execution.failure_text().unwrap());
                ExecutionReply::Performed
            }
            ExecutionStep::Nack { .. } => {
                let retry_at = execution.retry_time().unwrap();
                let error = execution.failure_text().unwrap();
                let now = self.now;
                let held = self.held(id, token).map(|dispatch| {
                    dispatch.attempt_count += 1;
                    dispatch.last_error = Some(error);
                    dispatch.available_at = retry_at;
                    if dispatch.attempt_count >= dispatch.max_attempts {
                        release(dispatch, RunDispatchStatus::DeadLetter, now);
                    } else {
                        release(dispatch, RunDispatchStatus::Queued, now);
                    }
                });
                ExecutionReply::Stored(held)
            }
            ExecutionStep::DeadLetter { .. } => {
                let error = execution.failure_text().unwrap();
                ExecutionReply::Stored(match self.fault("dead_letter") {
                    Ok(()) => {
                        if let Ok(dispatch) = self.held(id, token) {
                            dispatch.last_error = Some(error);
                        }
                        self.store_end(id, token, RunDispatchStatus::DeadLetter)
                    }
                    Err(error) => Err(error),
                })
            }
            ExecutionStep::MarkDeadLetter { dispatch } => {
                let _ = self.mark_ended(dispatch.clone(), TerminalKind::DeadLetter);
                ExecutionReply::Performed
            }
            ExecutionStep::Finish => {
                self.workers.finish_execution(&execution.claim.thread_id, id);
                self.try_next(&execution.claim.thread_id);
                ExecutionReply::Performed
            }
            ExecutionStep::Done => unreachable!(),
        }
    }

    fn execute(&mut self, dispatch: RunDispatch, claim_token: String) {
        let claim = Claim {
            thread_id: dispatch.thread_id.clone(),
            dispatch,
            claim_token,
            config: self.mailbox.config,
            capture: self.mailbox.runtime_event_capture.is_some(),
            staged: self.mailbox.executor.has_staged_coordinator,
        };
        let mut execution = ClaimedDispatch::run_claimed_dispatch(claim);
        while !matches!(execution.step, ExecutionStep::Done) {
            let reply = self.execute_once(&execution);
            assert!(execution.expects(&reply));
            execution = execution.advance(reply);
        }
    }

    /// Run the executions that were started, and those that they start.
    fn run_started(&mut self) {
        while !self.started.is_empty() {
            let (dispatch, claim_token) = self.started.remove(0);
            self.execute(dispatch, claim_token);
        }
    }

    fn signal(&mut self, dispatch_id: &str, redelivery_attempts: Option<u64>) -> SignalStep {
        let thread_id = self.dispatch(dispatch_id).thread_id;
        let entry = SignalEntry {
            redelivery_attempts,
            base_delay: SIGNAL_NACK_BASE_DELAY_MS,
            max_delay: SIGNAL_NACK_MAX_DELAY_MS,
        };
        let mut step = SignalStep::Dispatch;
        loop {
            let reply = match step {
                SignalStep::Dispatch => SignalReply::Attempted(self.kick(&thread_id)),
                SignalStep::Verify => SignalReply::Loaded {
                    result: self.load_dispatch(dispatch_id),
                    now: self.now,
                },
                SignalStep::Nack { .. } | SignalStep::Ack => return step,
                SignalStep::Done => unreachable!(),
            };
            assert!(signal_expects(step, &reply));
            step = handle_dispatch_signal_entry(entry, step, reply);
        }
    }

    fn reconcile(&mut self, dispatch: &RunDispatch) {
        if let Some(kind) = reconcile_terminal_dispatch(dispatch.status) {
            let _ = self.mark_ended(dispatch.clone(), kind);
        }
    }

    fn repair_events(&mut self) -> Result<usize, Fault> {
        let has_publisher = self.mailbox.has_publisher;
        let mut repair = EventRepair::repair_thread_message_checkpoint_events(has_publisher);
        loop {
            repair = match repair.step {
                EventRepairStep::ListRuns { offset } => {
                    let reply = EventRepairReply::Runs(self.list_runs(None, REPAIR_PAGE_SIZE, offset));
                    assert!(repair.expects(&reply));
                    repair.advance(reply)
                }
                EventRepairStep::LoadMessages { ref thread_id, .. }
                | EventRepairStep::LoadLeft { ref thread_id, .. } => {
                    let log = self.logs.get(thread_id).cloned();
                    let reply = EventRepairReply::Messages(Ok(log));
                    assert!(repair.expects(&reply));
                    repair.advance(reply)
                }
                EventRepairStep::Publish { ref events, .. }
                | EventRepairStep::PublishLeft { ref events, .. } => {
                    let keys: Vec<String> =
                        events.iter().map(|event| event.idempotency_key.clone()).collect();
                    let known: Vec<String> =
                        self.events.iter().map(|event| event.idempotency_key.clone()).collect();
                    let fresh: Vec<usize> =
                        (0..keys.len()).filter(|at| !known.contains(&keys[*at])).collect();
                    for at in fresh {
                        let event = &events[at];
                        self.events.push(EventDraft {
                            kind: event.kind,
                            thread_id: event.thread_id.clone(),
                            run_id: event.run_id.clone(),
                            payload: EventPayload::Fields(Vec::new()),
                            correlation_id: event.correlation_id.clone(),
                            idempotency_key: event.idempotency_key.clone(),
                        });
                    }
                    repair.advance(EventRepairReply::Published)
                }
                EventRepairStep::Done { outcome } => return outcome,
            };
        }
    }

    fn drain_repairs(&mut self) {
        let tasks = self.repairs.take_tasks(self.mailbox.has_publisher);
        let mut drain = RepairDrain::drain_checkpoint_repair_queue(tasks);
        loop {
            let reply = match &drain.step {
                DrainStep::LoadMessages { at } => {
                    DrainReply::Messages(Ok(self.logs.get(&drain.tasks[*at].thread_id).cloned()))
                }
                DrainStep::Publish { events, .. } => {
                    let failed = self.fault("publish").is_err();
                    if !failed {
                        for event in events {
                            self.events.push(EventDraft {
                                kind: event.kind,
                                thread_id: event.thread_id.clone(),
                                run_id: event.run_id.clone(),
                                payload: EventPayload::Fields(Vec::new()),
                                correlation_id: event.correlation_id.clone(),
                                idempotency_key: event.idempotency_key.clone(),
                            });
                        }
                    }
                    DrainReply::Published { failed }
                }
                DrainStep::Requeue { at } => {
                    let task = drain.tasks[*at].clone();
                    self.repairs.enqueue_checkpoint_repair(self.mailbox.has_publisher, task);
                    DrainReply::Performed
                }
                DrainStep::Done => return,
            };
            assert!(drain.expects(&reply));
            drain = drain.advance(reply);
        }
    }

    fn recover_prepared(&mut self, queued: Vec<String>) -> Result<usize, Fault> {
        let max_attempts = self.mailbox.config.default_max_attempts;
        let mut recovery =
            PreparedRecovery::recover_prepared_runs_missing_dispatch_wal(max_attempts, queued);
        loop {
            let reply = match &recovery.step {
                PreparedStep::ListRuns { status, offset } => {
                    PreparedReply::Runs(self.list_runs(Some(*status), RUN_PAGE_SIZE, *offset))
                }
                PreparedStep::LoadDispatch { dispatch_id, .. } => PreparedReply::Dispatch {
                    result: self.load_dispatch(dispatch_id),
                    now: self.now,
                },
                PreparedStep::Enqueue { dispatch, .. } => match self.enqueue(dispatch) {
                    Ok(()) => PreparedReply::Queued,
                    Err(error) => PreparedReply::NotQueued(error),
                },
                PreparedStep::PublishQueued { .. } => {
                    self.publish_due(recovery.event());
                    PreparedReply::Performed
                }
                PreparedStep::DispatchThread { at } => {
                    let thread_id = recovery.threads[*at].clone();
                    self.kick(&thread_id);
                    PreparedReply::Performed
                }
                PreparedStep::Done { .. } => break,
            };
            assert!(recovery.expects(&reply));
            recovery = recovery.advance(reply);
        }
        match recovery.step {
            PreparedStep::Done { outcome } => outcome,
            _ => unreachable!(),
        }
    }

    fn recover_waits(&mut self, queued: Vec<String>) -> Result<usize, Fault> {
        let mut recovery = WaitRecovery::recover_orphaned_background_task_waits(queued);
        loop {
            let reply = match &recovery.step {
                WaitStep::ListWaiting { offset } => WaitReply::Runs(
                    self.list_runs(Some(RunStatus::Waiting), RUN_PAGE_SIZE, *offset),
                ),
                WaitStep::Submit { request, .. } => {
                    let submission = self.mailbox.submit_background(request.clone());
                    match self.run_submission(submission) {
                        Ok(_) => WaitReply::Submitted,
                        Err(fault) => WaitReply::NotSubmitted(fault),
                    }
                }
                WaitStep::Done { .. } => break,
            };
            assert!(recovery.expects(&reply));
            recovery = recovery.advance(reply);
        }
        match recovery.step {
            WaitStep::Done { outcome } => outcome,
            _ => unreachable!(),
        }
    }

    fn scan_orphans(&mut self, queued: Vec<String>) -> Result<usize, Fault> {
        let has_pending = self.mailbox.has_pending_store;
        let mut scan = OrphanScan::recover_orphaned_pending_threads(has_pending, queued);
        loop {
            let reply = match &scan.step {
                OrphanStep::ListQueued => OrphanReply::Threads(self.queued_threads()),
                OrphanStep::ListPending { after } => {
                    let mut threads: Vec<String> = self
                        .pending
                        .iter()
                        .filter(|(_, queue)| !queue.is_empty())
                        .map(|(thread_id, _)| thread_id.clone())
                        .collect();
                    threads.sort();
                    if let Some(after) = after {
                        threads.retain(|thread_id| thread_id > after);
                    }
                    threads.truncate(PENDING_RECOVERY_PAGE_SIZE);
                    OrphanReply::Threads(Ok(threads))
                }
                OrphanStep::LatestRun { page, at } => {
                    OrphanReply::Run(self.latest_run(&page[*at]))
                }
                OrphanStep::Surface { .. } => OrphanReply::Performed,
                OrphanStep::Done { .. } => break,
            };
            assert!(scan.expects(&reply));
            scan = scan.advance(reply);
        }
        match scan.step {
            OrphanStep::Done { outcome } => outcome,
            _ => unreachable!(),
        }
    }

    fn recover_inner(&mut self) -> Result<usize, Fault> {
        let mut step = self.mailbox.recover();
        loop {
            let reply = match &step {
                RecoverStep::Reclaim => RecoverReply::Reclaimed(self.reclaim()),
                RecoverStep::PublishRescheduled { .. } => {
                    self.publish_due(recover_event(&step));
                    RecoverReply::Performed
                }
                RecoverStep::Reconcile { reclaimed, at } => {
                    self.reconcile(&reclaimed[*at]);
                    RecoverReply::Performed
                }
                RecoverStep::ReconcileEnded { .. } => {
                    self.reconcile_ended();
                    RecoverReply::Performed
                }
                RecoverStep::RepairEvents { .. } => RecoverReply::Counted(self.repair_events()),
                RecoverStep::ListQueued { .. } => RecoverReply::Threads(self.queued_threads()),
                RecoverStep::DispatchThread { queued, at, .. } => {
                    self.kick(&queued[*at]);
                    RecoverReply::Performed
                }
                RecoverStep::RecoverPrepared { queued, .. } => {
                    RecoverReply::Counted(self.recover_prepared(queued.clone()))
                }
                RecoverStep::RecoverWaits { queued, .. } => {
                    RecoverReply::Counted(self.recover_waits(queued.clone()))
                }
                RecoverStep::ScanOrphans { queued, .. } => {
                    RecoverReply::Counted(self.scan_orphans(queued.clone()))
                }
                RecoverStep::Done { .. } => break,
            };
            assert!(recover_expects(&step, &reply));
            step = recover(step, reply);
        }
        match step {
            RecoverStep::Done { outcome } => outcome,
            _ => unreachable!(),
        }
    }

    fn recover(&mut self) -> Result<usize, MailboxError> {
        self.recover_inner().map_err(|fault| fault.to_error())
    }

    fn sweep(&mut self) {
        let mut step = SweepStep::Reclaim;
        loop {
            let reply = match &step {
                SweepStep::Reclaim => SweepReply::Reclaimed(self.reclaim()),
                SweepStep::PublishRescheduled { .. } => {
                    self.publish_due(sweep_event(&step));
                    SweepReply::Performed
                }
                SweepStep::Reconcile { reclaimed, at } => {
                    self.reconcile(&reclaimed[*at]);
                    SweepReply::Performed
                }
                SweepStep::DispatchThread { reclaimed, at } => {
                    self.kick(&reclaimed[*at].thread_id);
                    SweepReply::Performed
                }
                SweepStep::ReconcileEnded => {
                    self.reconcile_ended();
                    SweepReply::Performed
                }
                SweepStep::DrainRepairs => {
                    self.drain_repairs();
                    SweepReply::Performed
                }
                SweepStep::Done => return,
            };
            assert!(sweep_expects(&step, &reply));
            step = run_sweep(step, reply);
        }
    }

    fn collect(&mut self) -> usize {
        let older_than = run_gc(&self.mailbox.config, self.now);
        self.dispatches.retain(|d| {
            let open =
                d.status == RunDispatchStatus::Queued || d.status == RunDispatchStatus::Claimed;
            open || d.updated_at >= older_than
        });
        let idle = self.workers.idle_threads();
        let mut removable = Vec::new();
        for thread_id in idle {
            if may_collect(&Ok(self.open_dispatches(&thread_id))) {
                removable.push(thread_id);
            }
        }
        self.workers.gc_idle_workers(&removable)
    }

    /// Start the lifecycle once it has recovered. Returns how often it tried.
    fn start_ready(&mut self, max_attempts: usize) -> (Result<(), MailboxError>, usize) {
        let mut config = remo_server::mailbox::MailboxLifecycleConfig::default();
        config.startup_recovery.max_attempts = max_attempts;
        config.startup_recovery.retry_delay = 0;
        let mut attempts = 0;
        let mut step = self.mailbox.start_lifecycle_ready();
        loop {
            let reply = match &step {
                ReadyStep::CheckRunning => ReadyReply::Running(Some(false)),
                ReadyStep::Delay { .. } => ReadyReply::Performed,
                ReadyStep::Recover => {
                    let mut startup = StartupStep::Recover { attempt: 1 };
                    let recovered = loop {
                        let reply = match &startup {
                            StartupStep::Recover { .. } => {
                                attempts += 1;
                                StartupReply::Recovered(self.recover_inner())
                            }
                            StartupStep::Sleep { .. } => StartupReply::Performed,
                            StartupStep::Done { .. } => break startup,
                        };
                        assert!(startup_expects(&config.startup_recovery, &startup, &reply));
                        startup = run_startup_recovery_with_retry(
                            &config.startup_recovery,
                            startup,
                            reply,
                        );
                    };
                    match recovered {
                        StartupStep::Done { outcome } => ReadyReply::Recovered(outcome),
                        _ => unreachable!(),
                    }
                }
                ReadyStep::StartTasks { config: started } => {
                    assert_eq!(started.startup_delay, 0);
                    assert_eq!(started.startup_recovery, config.startup_recovery);
                    ReadyReply::Started(Ok(()))
                }
                ReadyStep::Done { .. } => break,
            };
            assert!(ready_expects(&step, &reply));
            step = start_lifecycle_ready(&config, step, reply);
        }
        match step {
            ReadyStep::Done { outcome } => (outcome.map_err(|fault| fault.to_error()), attempts),
            _ => unreachable!(),
        }
    }
}

// Executions.

#[test]
fn reconstruct_failure_dead_letters_once_without_repolling() {
    let mut world = World::new();
    let dispatch = world.enqueue_prepared("thread-gc", "hi");
    world.logs.insert("thread-gc".to_string(), Vec::new());
    world.kick("thread-gc");
    world.run_started();
    let dead = world.dispatch(&dispatch.dispatch_id);
    assert_eq!(dead.status, RunDispatchStatus::DeadLetter);
    assert!(dead.last_error.clone().unwrap().contains("not found"));
    assert_eq!(world.requests.len(), 0);
    let attempts = dead.attempt_count;
    world.try_next("thread-gc");
    world.run_started();
    let after = world.dispatch(&dispatch.dispatch_id);
    assert_eq!(after.status, RunDispatchStatus::DeadLetter);
    assert_eq!(after.attempt_count, attempts);
    assert_eq!(world.requests.len(), 0);
}

#[test]
fn terminal_run_is_not_redispatched_by_recovery() {
    let mut world = World::new();
    let mut run = run_record("run-done", "thread-done", "agent", RunStatus::Done);
    run.termination_reason = Some(TerminationReason::NaturalEnd);
    run.dispatch_id = Some("stale-dispatch-id".to_string());
    run.finished_at = Some(2);
    world.put_run(&run);
    assert_eq!(world.recover().unwrap(), 0);
    assert!(world.of_thread("thread-done").is_empty());
    world.run_started();
    assert_eq!(world.requests.len(), 0);
}

#[test]
fn run_gc_auto_vacuums_old_terminal_dispatches() {
    let config = MailboxConfig { gc_ttl: 0, ..MailboxConfig::default() };
    let mut world = World::with(config, false, false);
    let dispatch = world.enqueue_prepared("thread-gc-vacuum", "done");
    let claimed = world.claim_as("thread-gc-vacuum", "p3-gc-consumer", 30_000).unwrap();
    let token = claimed[0].claim_token.clone().unwrap();
    world.store_end(&dispatch.dispatch_id, &token, RunDispatchStatus::Acked).unwrap();
    assert_eq!(world.dispatch(&dispatch.dispatch_id).status, RunDispatchStatus::Acked);
    world.now += 1;
    world.collect();
    assert!(world.load_dispatch(&dispatch.dispatch_id).unwrap().is_none());
}

#[test]
fn permanent_inference_error_dead_letters_after_single_run() {
    let mut world = World::new();
    world.results.push_back(unauthorized());
    let dispatch = world.enqueue_prepared("thread-perm", "go");
    world.kick("thread-perm");
    world.run_started();
    let dead = world.dispatch(&dispatch.dispatch_id);
    assert_eq!(dead.status, RunDispatchStatus::DeadLetter);
    assert!(dead.last_error.unwrap().contains("unauthorized"));
    assert_eq!(world.requests.len(), 1);
    assert!(dead.attempt_count < 5);
}

#[test]
fn transient_inference_error_nacks_for_retry() {
    let config = MailboxConfig {
        default_max_attempts: 5,
        default_retry_delay_ms: 600_000,
        max_retry_delay_ms: 600_000,
        ..MailboxConfig::default()
    };
    let mut world = World::with(config, false, false);
    world.results.push_back(rate_limited());
    let dispatch = world.enqueue_prepared("thread-transient", "go");
    world.kick("thread-transient");
    world.run_started();
    let requeued = world.dispatch(&dispatch.dispatch_id);
    assert_eq!(requeued.status, RunDispatchStatus::Queued);
    assert_eq!(requeued.attempt_count, 1);
    assert_eq!(requeued.available_at, world.now + 600_000);
    assert_eq!(world.requests.len(), 1);
    assert!(requeued.last_error.unwrap().contains("rate limited"));
}

#[test]
fn reconstruct_failure_missing_run_dead_letters_once() {
    let mut world = World::new();
    let mut dispatch = world.prepare_queued("thread-missing-run", "hi");
    dispatch.run_id = "nonexistent-run".to_string();
    world.enqueue(&dispatch).unwrap();
    world.kick("thread-missing-run");
    world.run_started();
    let dead = world.dispatch(&dispatch.dispatch_id);
    assert_eq!(dead.status, RunDispatchStatus::DeadLetter);
    assert!(dead.last_error.unwrap().contains("not found"));
    assert_eq!(world.requests.len(), 0);
}

#[test]
fn run_sweep_reclaims_expired_lease_and_completes_work() {
    let mut world = World::new();
    let dispatch = world.enqueue_prepared("thread-sweep-reclaim", "x");
    world.claim_as("thread-sweep-reclaim", "crashed-consumer", 100).unwrap();
    assert_eq!(world.dispatch(&dispatch.dispatch_id).status, RunDispatchStatus::Claimed);
    world.now += 1_000;
    world.sweep();
    world.run_started();
    let done = world.dispatch(&dispatch.dispatch_id);
    assert_eq!(done.status, RunDispatchStatus::Acked);
    assert_eq!(done.attempt_count, 1);
    assert_eq!(world.requests.len(), 1);
}

#[test]
fn quota_storm_drains_with_bounded_work() {
    let count = 50;
    let mut world = World::new();
    let mut ids = Vec::new();
    for i in 0..count {
        world.results.push_back(unauthorized());
        let thread_id = format!("storm-thread-{i}");
        ids.push(world.enqueue_prepared(&thread_id, "go").dispatch_id);
        world.kick(&thread_id);
    }
    world.run_started();
    for id in &ids {
        assert_eq!(world.dispatch(id).status, RunDispatchStatus::DeadLetter);
    }
    assert_eq!(world.requests.len(), count);
    for i in 0..count {
        assert!(world.open_dispatches(&format!("storm-thread-{i}")).is_empty());
    }
}

#[test]
fn permanent_error_recovers_from_transient_dead_letter_fault() {
    let config = MailboxConfig { lease_ms: 300, ..MailboxConfig::default() };
    let mut world = World::with(config, false, false);
    world.fail("dead_letter", 1);
    world.results.push_back(unauthorized());
    world.results.push_back(unauthorized());
    let dispatch = world.enqueue_prepared("thread-dl-fault", "go");
    world.kick("thread-dl-fault");
    world.run_started();
    assert_eq!(world.dispatch(&dispatch.dispatch_id).status, RunDispatchStatus::Claimed);
    world.now += 1_000;
    world.sweep();
    world.run_started();
    let dead = world.dispatch(&dispatch.dispatch_id);
    assert_eq!(dead.status, RunDispatchStatus::DeadLetter);
    assert!(dead.last_error.unwrap().contains("unauthorized"));
    assert_eq!(world.requests.len(), 2);
}

/// Check that the log holds the messages of 32 submits, and those that the runs name.
fn assert_no_submit_was_lost(world: &World, thread_id: &str, run_ids: &[String]) {
    let log = world.messages(thread_id);
    assert_eq!(log.len(), 32);
    for i in 0..32 {
        let text = format!("msg-{i}");
        assert_eq!(log.iter().filter(|message| message.text() == text).count(), 1);
    }
    assert_eq!(run_ids.len(), 32);
    for run_id in run_ids {
        let run = world.run(run_id);
        let triggers = run.activation.unwrap().input.trigger_message_ids;
        assert_eq!(triggers.len(), 1);
        assert_eq!(run.input.unwrap().trigger_message_ids, triggers);
        assert!(log.iter().any(|message| message.id.as_ref() == Some(&triggers[0])));
    }
}

#[test]
fn concurrent_same_thread_submits_do_not_lose_messages() {
    // One node begins all preparations at once. Each of them asks for the append lock of
    // the thread whenever its turn comes, and goes on while it holds it.
    let thread_id = "thread-race";
    let mut world = World::new();
    let mut lanes: Vec<Option<RunPreparation>> = (0..32)
        .map(|i| {
            let submitted = request(thread_id, &format!("msg-{i}"));
            let messages = submitted.messages.clone();
            let scope =
                PrepareScope { thread_id: thread_id.to_string(), has_pending_store: false };
            Some(RunPreparation::prepare_run_for_dispatch(scope, submitted, messages))
        })
        .collect();
    let mut run_ids = Vec::new();
    let mut holder: Option<usize> = None;
    let mut turn = 0;
    while run_ids.len() < lanes.len() {
        turn = (turn + 7) % lanes.len();
        if lanes[turn].is_none() || holder.is_some_and(|lane| lane != turn) {
            continue;
        }
        holder = Some(turn);
        let preparation = lanes[turn].take().unwrap();
        if let PrepareStep::Done { outcome } = preparation.step {
            run_ids.push(outcome.unwrap());
            holder = None;
            continue;
        }
        let reply = world.prepare_once(&preparation);
        assert!(preparation.expects(&reply));
        lanes[turn] = Some(preparation.advance(reply));
    }
    assert_no_submit_was_lost(&world, thread_id, &run_ids);
}

#[test]
fn cross_instance_concurrent_submits_do_not_lose_messages() {
    // Two nodes with one store: each prepares its runs one after another, and the
    // operations of the two alternate.
    let thread_id = "thread-cross-instance";
    let mut world = World::new();
    let mut run_ids = Vec::new();
    let mut conflicts = 0;
    for pair in 0..16 {
        let mut lanes: Vec<Option<RunPreparation>> = (0..2)
            .map(|lane| {
                let submitted = request(thread_id, &format!("msg-{}", 2 * pair + lane));
                let messages = submitted.messages.clone();
                let scope = PrepareScope {
                    thread_id: thread_id.to_string(),
                    has_pending_store: false,
                };
                Some(RunPreparation::prepare_run_for_dispatch(scope, submitted, messages))
            })
            .collect();
        while lanes.iter().any(|lane| lane.is_some()) {
            for lane in lanes.iter_mut() {
                let Some(preparation) = lane.take() else {
                    continue;
                };
                if let PrepareStep::Done { outcome } = preparation.step {
                    run_ids.push(outcome.unwrap());
                    continue;
                }
                let reply = world.prepare_once(&preparation);
                if reply == PrepareReply::Committed(CommitOutcome::Conflict) {
                    conflicts += 1;
                }
                assert!(preparation.expects(&reply));
                *lane = Some(preparation.advance(reply));
            }
        }
    }
    assert_eq!(conflicts, 16);
    assert_no_submit_was_lost(&world, thread_id, &run_ids);
}

#[test]
fn an_append_in_between_is_kept() {
    let mut world = World::new();
    let mut run_ids = Vec::new();
    for i in 0..5 {
        world.commit_conflicts = 1;
        let (_, run_id) = world.prepare(request("thread-race", &format!("msg-{i}"))).unwrap();
        run_ids.push(run_id);
    }
    let log = world.messages("thread-race");
    assert_eq!(log.len(), 10);
    for (i, run_id) in run_ids.iter().enumerate() {
        let snapshot = world.run(run_id).activation.unwrap();
        let trigger = &snapshot.input.trigger_message_ids[0];
        let found = log.iter().find(|m| m.id.as_ref() == Some(trigger)).unwrap();
        assert_eq!(found.text(), format!("msg-{i}"));
    }
}

#[test]
fn append_gives_up_after_too_many_conflicts() {
    let mut world = World::new();
    world.commit_conflicts = 8;
    let error = world.prepare(request("thread-busy", "hello")).unwrap_err();
    assert!(matches!(error, MailboxError::Internal(_)));
    assert!(error.to_text().contains("thread-busy"));
    assert!(world.messages("thread-busy").iter().all(|m| m.text() != "hello"));
    world.commit_conflicts = 7;
    assert!(world.prepare(request("thread-busy", "hello")).is_ok());
}

#[test]
fn background_success_records_run_result_and_keeps_dispatch_id_separate_from_run_id() {
    let mut world = World::new();
    world.results.push_back(ran("finished"));
    let submitted = world.submit_background(request("thread-run-result", "go")).unwrap();
    world.run_started();
    let acked = world.dispatch(&submitted.dispatch_id);
    assert_eq!(acked.status, RunDispatchStatus::Acked);
    assert_eq!(acked.run_status, Some(RunStatus::Done));
    assert_ne!(acked.run_id, submitted.dispatch_id);
    assert!(acked.dispatch_instance_id.is_some());
    assert_eq!(acked.termination, Some(TerminationReason::NaturalEnd));
    assert_eq!(acked.run_response.as_deref(), Some("finished"));
    assert!(acked.run_error.is_none());
    assert!(acked.completed_at.is_some());
}

#[test]
fn background_success_recovers_ack_after_result_was_recorded() {
    let mut world = World::new();
    world.fail("ack", 1);
    world.results.push_back(ran("finished"));
    let submitted =
        world.submit_background(request("thread-run-result-ack-recover", "go")).unwrap();
    world.run_started();
    let acked = world.dispatch(&submitted.dispatch_id);
    assert_eq!(acked.status, RunDispatchStatus::Acked);
    assert_eq!(acked.run_response.as_deref(), Some("finished"));
    assert_eq!(world.faults["ack"], 0);
}

fn agent_missing() -> Result<AgentRunResult, AgentLoopError> {
    Err(AgentLoopError::RuntimeError(RuntimeError::AgentNotFound {
        agent_id: "missing-agent".to_string(),
    }))
}

#[test]
fn background_permanent_error_records_run_result_before_dead_letter() {
    let mut world = World::new();
    world.results.push_back(agent_missing());
    let submitted = world.submit_background(request("thread-missing-agent", "go")).unwrap();
    world.run_started();
    let dead = world.dispatch(&submitted.dispatch_id);
    assert_eq!(dead.status, RunDispatchStatus::DeadLetter);
    assert_eq!(dead.run_status, Some(RunStatus::Done));
    assert_ne!(dead.run_id, submitted.dispatch_id);
    assert!(dead.dispatch_instance_id.is_some());
    assert!(matches!(
        &dead.termination,
        Some(TerminationReason::Error(message)) if message.contains("missing-agent")
    ));
    assert!(dead.last_error.unwrap().contains("missing-agent"));
    assert!(dead.run_error.unwrap().contains("missing-agent"));
    assert!(dead.completed_at.is_some());
}

#[test]
fn reconstruct_failure_cleans_worker_and_dispatches_next_queued() {
    let mut world = World::new();
    let thread_id = "thread-reconstruct-next";
    let missing = RunDispatch::queued(
        "dispatch-missing-run".to_string(),
        thread_id.to_string(),
        "missing-run".to_string(),
        world.now,
        3,
    );
    world.enqueue(&missing).unwrap();
    let next = world.enqueue_prepared(thread_id, "next");
    assert_eq!(world.kick(thread_id), DispatchAttempt::Claimed);
    world.run_started();
    assert_eq!(world.dispatch("dispatch-missing-run").status, RunDispatchStatus::DeadLetter);
    assert_eq!(world.dispatch(&next.dispatch_id).status, RunDispatchStatus::Acked);
}

#[test]
fn reconstruct_failure_dead_letters_once_and_is_not_polled_again() {
    let mut world = World::new();
    let thread_id = "thread-reconstruct-once";
    let missing = RunDispatch::queued(
        "dispatch-reconstruct-once".to_string(),
        thread_id.to_string(),
        "missing-run".to_string(),
        world.now,
        3,
    );
    world.enqueue(&missing).unwrap();
    assert_eq!(world.kick(thread_id), DispatchAttempt::Claimed);
    assert_eq!(world.try_next(thread_id), DispatchAttempt::Busy);
    world.run_started();
    assert_eq!(world.dispatch("dispatch-reconstruct-once").status, RunDispatchStatus::DeadLetter);
    assert_eq!(world.try_next(thread_id), DispatchAttempt::NoEligible);
}

#[test]
fn start_lifecycle_ready_fails_when_startup_recovery_fails() {
    let mut world = World::new();
    world.fail("reclaim", 1);
    let (started, attempts) = world.start_ready(1);
    assert!(started.unwrap_err().to_text().contains("injected reclaim failure"));
    assert_eq!(attempts, 1);
}

#[test]
fn start_lifecycle_ready_retries_startup_recovery_until_ready() {
    let mut world = World::new();
    world.fail("reclaim", 1);
    world.results.push_back(agent_missing());
    let dispatch = world.enqueue_prepared("thread-retry-recover", "recover");
    let (started, attempts) = world.start_ready(2);
    assert!(started.is_ok());
    assert_eq!(attempts, 2);
    world.run_started();
    assert_eq!(world.dispatch(&dispatch.dispatch_id).status, RunDispatchStatus::DeadLetter);
}

#[test]
fn start_lifecycle_reclaims_expired_claimed_dispatches_and_executes_them() {
    let mut world = World::new();
    world.results.push_back(agent_missing());
    let dispatch = world.enqueue_prepared("thread-stale", "recover stale");
    let claimed = world.claim_as("thread-stale", "dead-consumer", 1).unwrap();
    assert_eq!(claimed.len(), 1);
    assert_eq!(claimed[0].status, RunDispatchStatus::Claimed);
    assert_eq!(claimed[0].lease_until, Some(world.now + 1));
    world.now += 2;
    assert_eq!(world.recover().unwrap(), 1);
    world.run_started();
    let recovered = world.dispatch(&dispatch.dispatch_id);
    assert_eq!(recovered.status, RunDispatchStatus::DeadLetter);
    assert_eq!(recovered.attempt_count, 1);
    assert_ne!(recovered.run_id, dispatch.dispatch_id);
    assert!(recovered.dispatch_instance_id.is_some());
    assert!(recovered.run_error.unwrap().contains("missing-agent"));
}

#[test]
fn dispatch_signal_loop_claims_and_executes_queued_dispatch() {
    let mut world = World::new();
    let dispatch = world.enqueue_prepared("thread-signal-loop", "wake");
    assert_eq!(world.signal(&dispatch.dispatch_id, None), SignalStep::Ack);
    world.run_started();
    assert_eq!(world.dispatch(&dispatch.dispatch_id).status, RunDispatchStatus::Acked);
}

#[test]
fn dispatch_signal_loop_nacks_and_redelivers_after_claim_error() {
    let mut world = World::new();
    world.fail("claim", 1);
    let dispatch = world.enqueue_prepared("thread-signal-redeliver", "wake");
    let first = world.signal(&dispatch.dispatch_id, None);
    assert!(matches!(first, SignalStep::Nack { .. }));
    assert_eq!(world.signal(&dispatch.dispatch_id, Some(1)), SignalStep::Ack);
    world.run_started();
    assert_eq!(world.dispatch(&dispatch.dispatch_id).status, RunDispatchStatus::Acked);
}

#[test]
fn dispatch_signal_loop_nacks_when_signal_is_blocked_by_active_claim() {
    let mut world = World::new();
    let active = world.enqueue_prepared("thread-signal-blocked", "active");
    let claimed = world.claim_as("thread-signal-blocked", "remote-owner", 30_000).unwrap();
    let token = claimed[0].claim_token.clone().unwrap();
    let queued = world.enqueue_prepared("thread-signal-blocked", "queued");
    let blocked = world.signal(&queued.dispatch_id, None);
    assert_eq!(blocked, SignalStep::Nack { delay: Some(500) });
    assert_eq!(world.dispatch(&queued.dispatch_id).status, RunDispatchStatus::Queued);
    assert_eq!(world.signal(&active.dispatch_id, None), SignalStep::Ack);
    world.store_end(&active.dispatch_id, &token, RunDispatchStatus::Acked).unwrap();
    assert_eq!(world.signal(&queued.dispatch_id, Some(1)), SignalStep::Ack);
    world.run_started();
    assert_eq!(world.dispatch(&queued.dispatch_id).status, RunDispatchStatus::Acked);
}

// Submission and preparation.

#[test]
fn submit_background_enqueues_dispatch() {
    let mut world = World::new();
    let result = world.submit_background(request("thread-1", "hello")).unwrap();
    assert_eq!(result.thread_id, "thread-1");
    assert!(!result.dispatch_id.is_empty());
    assert!(!result.run_id.is_empty());
    assert_ne!(result.dispatch_id, result.run_id);
    let dispatches = world.of_thread("thread-1");
    assert_eq!(dispatches.len(), 1);
    assert_eq!(dispatches[0].run_id, result.run_id);
}

#[test]
fn submit_background_delivers_scheduled_policy_context() {
    let mut world = World::new();
    let mut submitted = request("thread-policy-bg", "hello");
    submitted.trace.adapter = AdapterKind::Acp;
    let result = world.submit_background(submitted).unwrap();
    world.run_started();
    assert_eq!(world.requests.len(), 1);
    let seen = &world.requests[0];
    assert_eq!(seen.trace.run_mode, RunMode::Scheduled);
    assert_eq!(seen.trace.adapter, AdapterKind::Acp);
    assert_eq!(seen.trace.dispatch_id.as_deref(), Some(result.dispatch_id.as_str()));
    assert!(seen.trace.session_id.is_some());
}

#[test]
fn prepare_run_for_dispatch_precreates_created_run_and_thread_projection() {
    let mut world = World::new();
    let mut created = request("thread-created", "plan this").with_agent_id("agent-created".into());
    created.trace.transport_request_id = Some("transport-created".to_string());
    let (prepared, run_id) = world.prepare(created).unwrap();
    assert_eq!(prepared.persistence.run_id_hint.as_deref(), Some(run_id.as_str()));
    let run = world.run(&run_id);
    assert_eq!(run.status, RunStatus::Created);
    assert_eq!(run.agent_id, "agent-created");
    let message_id = world.messages("thread-created")[0].id.clone().unwrap();
    let snapshot = run.activation.unwrap();
    assert_eq!(snapshot.input.trigger_message_ids, vec![message_id.clone()]);
    let input = run.input.unwrap();
    assert_eq!(input.thread_id, "thread-created");
    assert_eq!(input.range.unwrap().from_seq, 1);
    assert_eq!(input.range.unwrap().to_seq, 1);
    assert_eq!(input.trigger_message_ids, vec![message_id]);
    assert_eq!(snapshot.trace.transport_request_id.as_deref(), Some("transport-created"));
    assert_eq!(world.open_run_of_thread("thread-created"), Some(Some(run_id)));
}

#[test]
fn prepare_run_for_dispatch_persists_resolved_resolution_id() {
    let mut world = World::new();
    let created = request("thread-manifest", "plan this").with_agent_id("agent-created".into());
    let (_, run_id) = world.prepare(created).unwrap();
    assert_eq!(world.run(&run_id).resolution_id, Some(run_id));
}

#[test]
fn prepare_run_for_dispatch_uses_explicit_resolution_id_hint() {
    let mut world = World::new();
    let mut hinted =
        request("thread-manifest", "plan this").with_agent_id("agent-created".into());
    hinted.persistence.resolution_id_hint = Some("42".to_string());
    let (_, run_id) = world.prepare(hinted).unwrap();
    assert_eq!(world.run(&run_id).resolution_id.as_deref(), Some("42"));
}

#[test]
fn prepare_run_for_dispatch_inherits_previous_runtime_state() {
    let mut world = World::new();
    let mut previous = run_record("run-prev", "thread-state", "agent-prev", RunStatus::Done);
    previous.finished_at = Some(2);
    let state = json(r#"{"revision": 7, "extensions": {"remote": {"context_id": "remote-ctx-1"}}}"#);
    previous.state = Some(state.clone());
    let first = user("first").with_id("m-1".to_string());
    world.seed("thread-state", vec![first], previous);
    let second = RunActivation::new("thread-state".to_string(), vec![user("second")]);
    let (_, run_id) = world.prepare(second).unwrap();
    let run = world.run(&run_id);
    assert_eq!(run.status, RunStatus::Created);
    assert_eq!(run.agent_id, "agent-prev");
    let range = run.input.unwrap().range.unwrap();
    assert_eq!(range.from_seq, 1);
    assert_eq!(range.to_seq, 2);
    assert_eq!(run.state, Some(state));
}

#[test]
fn prepare_run_fails_when_the_request_does_not_resolve() {
    let mut world = World::new();
    world.fail("resolve", 1);
    let error = world.prepare(request("thread-unresolved", "go")).unwrap_err();
    assert!(matches!(error, MailboxError::Resolution { .. }));
    assert!(world.messages("thread-unresolved").is_empty());
    assert!(world.runs.is_empty());
}

#[test]
fn list_dispatches_returns_entries() {
    let mut world = World::new();
    for i in 0..3 {
        let listed = request("thread-list", "msg").with_agent_id(format!("agent-{i}"));
        world.submit_background(listed).unwrap();
    }
    let listed = Ok(world.of_thread("thread-list"));
    assert_eq!(world.mailbox.list_dispatches(listed).unwrap().len(), 3);
    let failed = Err(StorageError::Other("down".to_string()));
    assert!(matches!(world.mailbox.list_dispatches(failed), Err(MailboxError::Store(_))));
}

#[test]
fn prepare_run_preserves_request_extras_on_run_snapshot() {
    let mut world = World::new();
    let mut extra = request("thread-ext", "hi").with_agent_id("a1".to_string());
    let tool = json(r#"{"id": "ft1", "name": "FT1", "description": "desc"}"#);
    extra.options.frontend_tools.push(tool.clone());
    let (_, run_id) = world.prepare(extra).unwrap();
    let run = world.run(&run_id);
    let tools = run.activation.unwrap().options.frontend_tools;
    assert_eq!(tools.len(), 1);
    assert_eq!(tools[0], tool);
    assert!(run.request.is_none());
}

#[test]
fn prepare_run_round_trips_parent_thread_id() {
    let mut world = World::new();
    let mut child = request("thread-child", "hi");
    child.trace.parent_thread_id = Some("thread-parent".to_string());
    let submitted = world.submit_background(child).unwrap();
    let snapshot = world.run(&submitted.run_id).activation.unwrap();
    assert_eq!(snapshot.trace.parent_thread_id.as_deref(), Some("thread-parent"));
    world.run_started();
    let seen = &world.requests[0];
    assert_eq!(seen.trace.parent_thread_id.as_deref(), Some("thread-parent"));
}

#[test]
fn prepare_run_origin_a2a_roundtrip() {
    let mut world = World::new();
    let mut from_agent = RunActivation::new("thread-a2a".to_string(), vec![user("hi")]);
    from_agent.trace.origin = RunOrigin::A2A;
    from_agent.trace.parent_run_id = Some("parent-123".to_string());
    let (_, run_id) = world.prepare(from_agent).unwrap();
    let run = world.run(&run_id);
    assert_eq!(run.activation.unwrap().trace.origin, RunOrigin::A2A);
    assert_eq!(run.parent_run_id.as_deref(), Some("parent-123"));
}

#[test]
fn the_origin_of_a_request_reaches_its_run() {
    let mut world = World::new();
    let mut from_agent = request("thread-from-agent", "hi");
    from_agent.trace.origin = RunOrigin::A2A;
    world.submit_background(from_agent).unwrap();
    world.submit_background(request("thread-user", "hi")).unwrap();
    world.run_started();
    assert_eq!(world.requests[0].trace.origin, RunOrigin::A2A);
    assert_eq!(world.requests[1].trace.origin, RunOrigin::User);
}

#[test]
fn build_dispatch_extras_roundtrip_with_decisions() {
    let mut decided = RunActivation::new("thread-dec".to_string(), vec![user("hi")])
        .with_agent_id("a1".to_string());
    let resume = ToolCallResume { decision_id: "d-1".to_string(), ..resume() };
    let decision = SeededDecision { tool_call_id: "call-1".to_string(), resume };
    decided.control.seeded_decisions.push(decision);
    let extras = LegacyRunSnapshotExtras::from_request(&decided);
    assert_eq!(extras.decisions.len(), 1);
    assert_eq!(extras.decisions[0].tool_call_id, "call-1");
    assert_eq!(extras.decisions[0].resume.decision_id, "d-1");
}

#[test]
fn seeded_decisions_reach_the_run() {
    let mut world = World::new();
    let mut decided = request("thread-decided", "hi");
    let decision = SeededDecision { tool_call_id: "tc-1".to_string(), resume: resume() };
    decided.control.seeded_decisions.push(decision);
    world.submit_background(decided).unwrap();
    world.run_started();
    let seen = &world.requests[0].control.seeded_decisions;
    assert_eq!(seen.len(), 1);
    assert_eq!(seen[0].tool_call_id, "tc-1");
    assert_eq!(seen[0].resume.result, json(r#"{"approved": true}"#));
}

#[test]
fn submit_background_returns_correct_status() {
    let mut world = World::new();
    let first = world.submit_background(request("thread-status", "first")).unwrap();
    assert_eq!(first.status, MailboxDispatchStatus::Running);
    let second = world.submit_background(request("thread-status", "second")).unwrap();
    assert_eq!(second.status, MailboxDispatchStatus::Queued);
}

#[test]
fn concurrent_submit_background_same_thread_only_one_runs() {
    let mut world = World::new();
    for i in 0..5 {
        world.submit_background(request("thread-conc", &format!("msg-{i}"))).unwrap();
    }
    let claimed = world
        .of_thread("thread-conc")
        .iter()
        .filter(|d| d.status == RunDispatchStatus::Claimed)
        .count();
    assert_eq!(claimed, 1);
    assert_eq!(world.started.len(), 1);
    world.run_started();
    assert!(world.of_thread("thread-conc").iter().all(|d| d.status == RunDispatchStatus::Acked));
    assert_eq!(world.requests.len(), 5);
}

#[test]
fn worker_status_not_corrupted_after_empty_claim() {
    let thread_id = "thread-guard";
    let mut world = World::new();
    world.submit_background(request(thread_id, "a")).unwrap();
    assert!(world.workers.active_run(thread_id).is_some());
    world.try_next(thread_id);
    assert!(world.workers.active_run(thread_id).is_some());
    assert_eq!(world.started.len(), 1);
}

#[test]
fn a_worker_claims_after_an_empty_claim() {
    let mut world = World::new();
    assert_eq!(world.kick("thread-empty"), DispatchAttempt::NoEligible);
    world.submit_background(request("thread-empty", "go")).unwrap();
    assert_eq!(world.started.len(), 1);
}

#[test]
fn submit_inline_claim_empty_cancels_precreated_run() {
    let mut world = World::new();
    world.fail("claim_empty", 1);
    let error = world.submit(request("thread-inline-empty", "go")).unwrap_err();
    assert!(error.to_text().contains("thread has an active run that could not be cancelled"));
    let dispatches = world.of_thread("thread-inline-empty");
    assert_eq!(dispatches.len(), 1);
    assert_eq!(dispatches[0].status, RunDispatchStatus::Cancelled);
    let run = world.run(&dispatches[0].run_id);
    assert_eq!(run.status, RunStatus::Done);
    assert_eq!(run.termination_reason, Some(TerminationReason::Cancelled));
    assert_eq!(run.dispatch_id.as_deref(), Some(dispatches[0].dispatch_id.as_str()));
    assert!(world.started.is_empty());
}

#[test]
fn submit_returns_event_channel() {
    let mut world = World::new();
    let result = world.submit(request("thread-stream", "hello")).unwrap();
    assert_eq!(result.thread_id, "thread-stream");
    assert_eq!(result.status, MailboxDispatchStatus::Running);
    assert_eq!(world.started.len(), 1);
    world.run_started();
    assert_eq!(world.dispatch(&result.dispatch_id).status, RunDispatchStatus::Acked);
}

// Cancels and interrupts.

#[test]
fn cancel_queued_dispatch_works() {
    let mut world = World::new();
    let queued = world.enqueue_prepared("thread-cancel", "hello");
    assert!(world.cancel(&queued.dispatch_id).unwrap());
    assert_eq!(world.dispatch(&queued.dispatch_id).status, RunDispatchStatus::Cancelled);
    let run = world.run(&queued.run_id);
    assert_eq!(run.status, RunStatus::Done);
    assert_eq!(run.termination_reason, Some(TerminationReason::Cancelled));
    assert_eq!(run.dispatch_id.as_deref(), Some(queued.dispatch_id.as_str()));
    let event = world.event("RunCancelled");
    assert_eq!(text_field(event, "dispatch_id"), Some(queued.dispatch_id.clone()));
    assert_eq!(event.correlation_id, queued.dispatch_id);
}

#[test]
fn cancel_of_an_unknown_id_finds_nothing() {
    let mut world = World::new();
    assert!(!world.cancel("nonexistent").unwrap());
    assert!(world.delivered.is_empty());
    world.fail("cancel", 1);
    assert!(matches!(world.cancel("nonexistent"), Err(MailboxError::Store(_))));
}

#[test]
fn interrupt_bumps_dispatch_epoch() {
    let mut world = World::new();
    world.submit_background(request("thread-int", "a")).unwrap();
    assert!(world.interrupt("thread-int").unwrap().new_dispatch_epoch > 0);
}

#[test]
fn interrupt_marks_superseded_queued_runs_cancelled() {
    let mut world = World::new();
    let first = world.enqueue_prepared("thread-int-runs", "first");
    let second = world.enqueue_prepared("thread-int-runs", "second");
    let result = world.interrupt("thread-int-runs").unwrap();
    assert_eq!(result.superseded_count, 2);
    assert_eq!(result.superseded_dispatches.len(), 2);
    for submitted in [&first, &second] {
        let status = world.dispatch(&submitted.dispatch_id).status;
        assert_eq!(status, RunDispatchStatus::Superseded);
        let run = world.run(&submitted.run_id);
        assert_eq!(run.status, RunStatus::Done);
        assert_eq!(run.termination_reason, Some(TerminationReason::Cancelled));
        assert_eq!(run.dispatch_id.as_deref(), Some(submitted.dispatch_id.as_str()));
    }
}

#[test]
fn runtime_event_capture_records_run_interrupted_on_thread_interrupt() {
    let mut world = World::new();
    world.runtime_cancels = true;
    let active = world.enqueue_prepared("thread-interrupt-event", "active");
    world.claim_dispatch(&active.dispatch_id).unwrap().unwrap();
    let result = world.interrupt("thread-interrupt-event").unwrap();
    assert_eq!(result.active_dispatch.unwrap().dispatch_id, active.dispatch_id);
    let event = world.event("RunInterrupted");
    assert_eq!(event.run_id, active.run_id);
    assert_eq!(event.correlation_id, active.dispatch_id);
    assert_eq!(text_field(event, "dispatch_id"), Some(active.dispatch_id.clone()));
    assert_eq!(text_field(event, "status").as_deref(), Some("claimed"));
}

#[test]
fn runtime_event_capture_records_run_rescheduled_on_retry_backoff() {
    let mut world = World::new();
    world.results.push_back(rate_limited());
    let submitted = world.submit_background(request("thread-reschedule-retry", "retry")).unwrap();
    world.run_started();
    let event = world.event("RunRescheduled");
    assert_eq!(event.run_id, submitted.run_id);
    assert_eq!(text_field(event, "dispatch_id"), Some(submitted.dispatch_id.clone()));
    assert_eq!(text_field(event, "status").as_deref(), Some("queued"));
    assert_eq!(text_field(event, "reason").as_deref(), Some("retry_backoff"));
    assert_eq!(number_field(event, "attempt_count"), Some(1));
    let available_at = number_field(event, "available_at");
    assert_eq!(available_at, Some(world.dispatch(&submitted.dispatch_id).available_at));
}

#[test]
fn runtime_event_capture_records_run_rescheduled_on_expired_lease_reclaim() {
    let mut world = World::new();
    let dispatch = world.enqueue_prepared("thread-reschedule-reclaim", "reclaim");
    world.claim_as("thread-reschedule-reclaim", "stale-consumer", 100).unwrap();
    world.now += 1_000;
    world.sweep();
    let event = world.event("RunRescheduled");
    assert_eq!(text_field(event, "dispatch_id"), Some(dispatch.dispatch_id));
    assert_eq!(text_field(event, "status").as_deref(), Some("queued"));
    assert_eq!(text_field(event, "reason").as_deref(), Some("expired_lease_reclaimed"));
    assert_eq!(number_field(event, "attempt_count"), Some(1));
}

#[test]
fn foreground_submit_marks_prior_queued_run_cancelled() {
    let mut world = World::new();
    let old = world.enqueue_prepared("thread-submit-supersede", "old");
    world.submit(request("thread-submit-supersede", "new")).unwrap();
    assert_eq!(world.dispatch(&old.dispatch_id).status, RunDispatchStatus::Superseded);
    let run = world.run(&old.run_id);
    assert_eq!(run.status, RunStatus::Done);
    assert_eq!(run.termination_reason, Some(TerminationReason::Cancelled));
    assert_eq!(run.dispatch_id.as_deref(), Some(old.dispatch_id.as_str()));
}

#[test]
fn send_decision_unknown_id_returns_false() {
    let mut world = World::new();
    assert!(!world.decide("nonexistent", "tc-1", resume()));
    assert!(world.events.is_empty());
}

#[test]
fn send_decision_live_delivers_to_remote_waiting_run() {
    let mut world = World::new();
    world.remote = LiveDeliveryOutcome::Delivered;
    let run = waiting_run("run-remote-decision", "thread-remote-decision", WaitingReason::BackgroundTasks);
    world.put_run(&run);
    assert!(world.decide("thread-remote-decision", "tool-1", resume()));
    assert_eq!(world.delivered.len(), 1);
    assert_eq!(world.delivered[0].0, "run-remote-decision");
    match &world.delivered[0].1 {
        LiveRunCommand::Decision(decisions) => assert_eq!(decisions[0].tool_call_id, "tool-1"),
        other => panic!("unexpected command: {other:?}"),
    }
}

#[test]
fn runtime_event_capture_records_mailbox_decision_received() {
    let mut world = World::new();
    world.remote = LiveDeliveryOutcome::Delivered;
    let run = waiting_run("run-decision-event", "thread-decision-event", WaitingReason::BackgroundTasks);
    world.put_run(&run);
    assert!(world.decide("thread-decision-event", "tool-1", resume()));
    assert_eq!(world.kinds(), vec!["MailboxDecisionReceived", "ToolPermissionResolved"]);
    let event = world.event("MailboxDecisionReceived");
    assert_eq!(event.run_id, "run-decision-event");
    assert_eq!(text_field(event, "tool_call_id").as_deref(), Some("tool-1"));
    assert_eq!(text_field(event, "decision_id").as_deref(), Some("d1"));
    assert_eq!(text_field(event, "delivery_path").as_deref(), Some("remote_live"));
    match &event.payload {
        EventPayload::Fields(fields) => {
            let action = fields.iter().find(|field| field.name == "action").unwrap();
            assert_eq!(action.value, PayloadValue::Action(ResumeDecisionAction::Resume));
            let result = fields.iter().find(|field| field.name == "result").unwrap();
            assert_eq!(result.value, PayloadValue::Json(json(r#"{"approved": true}"#)));
        }
        EventPayload::RunFinish { .. } => panic!("unexpected payload"),
    }
    let permission = world.event("ToolPermissionResolved");
    assert_eq!(permission.run_id, "run-decision-event");
    assert_eq!(text_field(permission, "tool_call_id").as_deref(), Some("tool-1"));
    assert_eq!(text_field(permission, "decision_id").as_deref(), Some("d1"));
    assert_eq!(text_field(permission, "delivery_path").as_deref(), Some("remote_live"));
    match &permission.payload {
        EventPayload::Fields(fields) => {
            let approved = fields.iter().find(|field| field.name == "approved").unwrap();
            assert_eq!(approved.value, PayloadValue::Flag(true));
        }
        EventPayload::RunFinish { .. } => panic!("unexpected payload"),
    }
}

#[test]
fn decision_without_an_approval_resolves_no_permission() {
    let mut world = World::new();
    world.runtime_takes_decisions = true;
    let run = waiting_run("run-plain", "thread-plain", WaitingReason::UserInput);
    world.put_run(&run);
    let mut plain = resume();
    plain.result = json(r#"{"answer": "yes"}"#);
    assert!(world.decide("run-plain", "tool-1", plain));
    assert_eq!(world.kinds(), vec!["MailboxDecisionReceived"]);
    let path = text_field(world.event("MailboxDecisionReceived"), "delivery_path");
    assert_eq!(path.as_deref(), Some("local_live"));
    assert!(world.delivered.is_empty());
}

// Runs that wait.

#[test]
fn waiting_thread_is_reactivated_by_incoming_message() {
    let mut world = World::new();
    world.put_run(&waiting_run("run-waiting", "thread-waiting", WaitingReason::BackgroundTasks));
    let submitted = world.submit_background(request("thread-waiting", "poke")).unwrap();
    assert_eq!(submitted.run_id, "run-waiting");
    world.run_started();
    let seen = &world.requests[0];
    assert_eq!(seen.resume_run_id().as_deref(), Some("run-waiting"));
    assert_eq!(world.dispatch(&submitted.dispatch_id).status, RunDispatchStatus::Acked);
}

#[test]
fn structured_user_input_waiting_thread_is_reused_by_incoming_message() {
    let mut world = World::new();
    world.put_run(&waiting_run("run-user-input", "thread-user-input", WaitingReason::UserInput));
    let submitted = world.submit_background(request("thread-user-input", "continue")).unwrap();
    assert_eq!(submitted.run_id, "run-user-input");
}

#[test]
fn reusable_waiting_run_prefers_thread_open_run_projection_over_latest_run() {
    let thread_id = "thread-open-projection";
    let mut world = World::new();
    let mut open = waiting_run("run-open", thread_id, WaitingReason::UserInput);
    open.updated_at = 10;
    let mut newer = waiting_run("run-newer-latest", thread_id, WaitingReason::UserInput);
    newer.updated_at = 20;
    world.put_run(&open);
    world.put_run(&newer);
    world.open_runs.insert(thread_id.to_string(), "run-open".to_string());
    let submitted = world.submit_background(request(thread_id, "continue open")).unwrap();
    assert_eq!(submitted.run_id, "run-open");
    world.run_started();
    assert!(!world.requests.is_empty());
    assert_eq!(world.requests[0].resume_run_id().as_deref(), Some("run-open"));
}

#[test]
fn waiting_lookup_loads_the_open_run_of_the_thread() {
    let thread_id = "thread-open-projection".to_string();
    let lookup = WaitingLookup::reusable_waiting_run_id(thread_id.clone());
    let thread = WaitingReply::Thread(Ok(Some(Some("run-open".to_string()))));
    assert!(lookup.expects(&thread));
    let lookup = lookup.advance(thread);
    assert_eq!(lookup.step, WaitingStep::LoadOpenRun { open_run_id: "run-open".to_string() });
    let open = waiting_run("run-open", &thread_id, WaitingReason::UserInput);
    let lookup = lookup.advance(WaitingReply::Run(Ok(Some(open))));
    assert_eq!(lookup.step, WaitingStep::Done { outcome: Ok(Some("run-open".to_string())) });
}

#[test]
fn reusable_waiting_run_id_returns_none_for_done_cached_run() {
    let thread_id = "thread-done-run";
    let mut world = World::new();
    let run = run_record("run-done", thread_id, "agent", RunStatus::Done);
    world.seed(thread_id, vec![user("hi")], run.clone());
    let context = Context { messages: world.messages(thread_id), latest: Some(run) };
    world.run_worker(thread_id, "dispatch-done", "run-done", Some(context));
    assert_eq!(world.reusable_waiting_run(thread_id), Ok(None));
}

#[test]
fn reusable_waiting_run_is_one_that_waits() {
    let mut world = World::new();
    world.seed("t-1", Vec::new(), run_record("r-1", "t-1", "agent", RunStatus::Done));
    assert_eq!(world.reusable_waiting_run("t-1"), Ok(None));
    let waiting = waiting_run("r-2", "t-1", WaitingReason::UserInput);
    world.put_run(&waiting);
    assert_eq!(world.reusable_waiting_run("t-1"), Ok(Some("r-2".to_string())));
}

#[test]
fn a_run_of_another_thread_or_one_that_is_done_is_not_prepared() {
    let mut world = World::new();
    world.put_run(&run_record("run-other", "thread-other", "agent", RunStatus::Created));
    world.put_run(&run_record("run-over", "thread-mine", "agent", RunStatus::Done));
    let foreign = request("thread-mine", "go").with_run_id_hint("run-other".to_string());
    match world.prepare(foreign) {
        Err(MailboxError::Validation(message)) => assert_eq!(
            message,
            "run_id 'run-other' belongs to thread 'thread-other', not 'thread-mine'"
        ),
        other => panic!("unexpected outcome: {other:?}"),
    }
    let over = request("thread-mine", "go").with_run_id_hint("run-over".to_string());
    match world.prepare(over) {
        Err(MailboxError::Validation(message)) => {
            assert_eq!(message, "run_id 'run-over' is not open for dispatch")
        }
        other => panic!("unexpected outcome: {other:?}"),
    }
}

// Recovery.

#[test]
fn recover_only_enqueues_orphaned_background_task_waiting_runs() {
    let mut world = World::new();
    let background = waiting_run("run-bg", "thread-bg-recover", WaitingReason::BackgroundTasks);
    world.put_run(&background);
    world.put_run(&waiting_run("run-user", "thread-user-recover", WaitingReason::UserInput));
    assert_eq!(world.recover().unwrap(), 1);
    world.run_started();
    assert_eq!(world.requests.len(), 1);
    let seen = &world.requests[0];
    assert_eq!(seen.intent.thread_id, "thread-bg-recover");
    assert_eq!(seen.resume_run_id().as_deref(), Some("run-bg"));
    assert_eq!(seen.trace.run_mode, RunMode::InternalWake);
    assert_eq!(seen.trace.adapter, AdapterKind::Internal);
    assert!(world.of_thread("thread-user-recover").is_empty());
}

#[test]
fn recover_pages_orphaned_background_task_waiting_runs() {
    let mut world = World::new();
    for index in 0..205 {
        world.put_run(&waiting_run(
            &format!("run-bg-page-{index}"),
            &format!("thread-bg-page-{index}"),
            WaitingReason::BackgroundTasks,
        ));
    }
    assert_eq!(world.recover().unwrap(), 205);
    world.run_started();
    assert_eq!(world.requests.len(), 205);
}

#[test]
fn recover_reconstructs_dispatch_for_prepared_run_missing_wal() {
    let mut world = World::new();
    let (prepared, run_id) =
        world.prepare(request("thread-prepared-crash", "recover me")).unwrap();
    let dispatch_id = prepared.persistence.dispatch_id_hint.unwrap();
    assert!(world.load_dispatch(&dispatch_id).unwrap().is_none());
    assert_eq!(world.recover().unwrap(), 1);
    world.run_started();
    assert_eq!(world.requests.len(), 1);
    let dispatch = world.dispatch(&dispatch_id);
    assert_eq!(dispatch.run_id, run_id);
    assert_eq!(dispatch.thread_id, "thread-prepared-crash");
    assert_eq!(world.recover().unwrap(), 0);
}

#[test]
fn recover_reconstructs_dispatch_for_prepared_waiting_resume_missing_wal() {
    let mut world = World::new();
    let waiting =
        waiting_run("run-waiting-crash", "thread-waiting-crash", WaitingReason::UserInput);
    world.put_run(&waiting);
    let resumed = request("thread-waiting-crash", "resume")
        .with_continue_run_id("run-waiting-crash".to_string());
    let (prepared, _) = world.prepare(resumed).unwrap();
    let dispatch_id = prepared.persistence.dispatch_id_hint.unwrap();
    assert_eq!(world.recover().unwrap(), 1);
    let dispatch = world.dispatch(&dispatch_id);
    assert_eq!(dispatch.run_id, "run-waiting-crash");
    assert_eq!(dispatch.thread_id, "thread-waiting-crash");
}

#[test]
fn recover_prepared_runs_collects_before_enqueue_to_avoid_offset_skips() {
    let mut world = World::new();
    let mut threads = Vec::new();
    for index in 0..250 {
        let thread_id = format!("thread-prepared-page-{index}");
        let run_id = format!("run-prepared-page-{index}");
        let mut run = run_record(&run_id, &thread_id, "agent", RunStatus::Created);
        run.dispatch_id = Some(format!("dispatch-prepared-page-{index}"));
        world.put_run(&run);
        threads.push(thread_id);
    }
    assert_eq!(world.recover_prepared(threads), Ok(250));
    for index in 0..250 {
        let dispatch_id = format!("dispatch-prepared-page-{index}");
        assert!(world.load_dispatch(&dispatch_id).unwrap().is_some());
    }
}

#[test]
fn recover_reconciles_terminal_cancelled_and_superseded_dispatches_after_crash() {
    let mut world = World::new();
    let cancelled = world.enqueue_prepared("thread-reconcile-cancel", "cancel");
    let superseded = world.enqueue_prepared("thread-reconcile-supersede", "supersede");
    world.cancel_in_store(&cancelled.dispatch_id).unwrap();
    world.interrupt_in_store("thread-reconcile-supersede").unwrap();
    for submitted in [&cancelled, &superseded] {
        let before = world.run(&submitted.run_id);
        assert_eq!(before.status, RunStatus::Created);
        assert_eq!(before.dispatch_id.as_deref(), Some(submitted.dispatch_id.as_str()));
    }
    assert_eq!(world.recover().unwrap(), 0);
    for submitted in [&cancelled, &superseded] {
        let run = world.run(&submitted.run_id);
        assert_eq!(run.status, RunStatus::Done);
        assert_eq!(run.termination_reason, Some(TerminationReason::Cancelled));
        assert_eq!(run.dispatch_id.as_deref(), Some(submitted.dispatch_id.as_str()));
    }
}

#[test]
fn reclaim_dead_letter_marks_run_error() {
    let mut world = World::new();
    let mut dispatch = world.prepare_queued("thread-reclaim-dead", "expire");
    dispatch.max_attempts = 1;
    world.enqueue(&dispatch).unwrap();
    assert_eq!(world.claim_as("thread-reclaim-dead", "stale-consumer", 100).unwrap().len(), 1);
    world.now += 1_000;
    world.recover().unwrap();
    assert_eq!(world.dispatch(&dispatch.dispatch_id).status, RunDispatchStatus::DeadLetter);
    let run = world.run(&dispatch.run_id);
    assert_eq!(run.status, RunStatus::Done);
    assert!(matches!(run.termination_reason, Some(TerminationReason::Error(_))));
    assert_eq!(run.dispatch_id.as_deref(), Some(dispatch.dispatch_id.as_str()));
}

#[test]
fn sweep_reconciles_dead_letter_dispatch_after_crash() {
    let mut world = World::new();
    let dispatch = world.enqueue_prepared("thread-sweep-reconcile-dead", "dead");
    let claimed = world.claim_as("thread-sweep-reconcile-dead", "stale-consumer", 100).unwrap();
    let token = claimed[0].claim_token.clone().unwrap();
    world.store_end(&dispatch.dispatch_id, &token, RunDispatchStatus::DeadLetter).unwrap();
    assert_eq!(world.run(&dispatch.run_id).status, RunStatus::Created);
    world.sweep();
    let run = world.run(&dispatch.run_id);
    assert_eq!(run.status, RunStatus::Done);
    assert!(matches!(run.termination_reason, Some(TerminationReason::Error(_))));
    assert_eq!(run.dispatch_id.as_deref(), Some(dispatch.dispatch_id.as_str()));
}

fn committed_run(world: &mut World, thread_id: &str, run_id: &str, message_id: &str) {
    let mut run = run_record(run_id, thread_id, "agent", RunStatus::Done);
    let (_, input) = remo_server::mailbox::helpers::build_run_input(
        thread_id,
        1,
        &vec![message_id.to_string()],
    );
    run.input = Some(input);
    world.seed(thread_id, vec![user("hi").with_id(message_id.to_string())], run);
}

#[test]
fn recover_repairs_thread_message_checkpoint_events_from_committed_log() {
    let mut world = World::new();
    committed_run(&mut world, "thread-repair-events", "run-repair-events", "message-repair-1");
    assert_eq!(world.repair_events(), Ok(1));
    assert_eq!(world.kinds(), vec!["MessageCommitted", "ThreadMessagesCheckpointed"]);
    assert_eq!(world.repair_events(), Ok(1));
    assert_eq!(world.events.len(), 2);
}

fn event_keys(world: &World) -> Vec<String> {
    world.events.iter().map(|event| event.idempotency_key.clone()).collect()
}

#[test]
fn repair_of_a_published_log_publishes_nothing_new() {
    let mut world = World::new();
    let (_, first) = world.prepare(request("thread-whole", "one")).unwrap();
    let (_, second) = world.prepare(request("thread-whole", "two")).unwrap();
    assert_eq!(world.messages("thread-whole").len(), 2);
    let range = world.run(&second).input.unwrap().range.unwrap();
    assert_eq!((range.from_seq, range.to_seq), (1, 2));
    let published = event_keys(&world);
    assert_eq!(published.len(), 4);
    assert!(published.contains(&format!("ThreadMessagesCheckpointed/thread-whole/{first}/1-1")));
    assert!(published.contains(&format!("ThreadMessagesCheckpointed/thread-whole/{second}/2-2")));
    assert_eq!(world.repair_events(), Ok(3));
    assert_eq!(event_keys(&world), published);
}

#[test]
fn repair_publishes_what_is_missing_under_the_first_keys() {
    let mut published = World::new();
    let mut silent = World::new();
    for world in [&mut published, &mut silent] {
        for (run_id, message_id) in [("run-1", "m-1"), ("run-2", "m-2")] {
            let mut submitted = request("thread-gap", "hi").with_run_id_hint(run_id.to_string());
            submitted.messages[0].id = Some(message_id.to_string());
            world.prepare(submitted).unwrap();
        }
    }
    let mut keys = event_keys(&published);
    silent.events.clear();
    assert_eq!(silent.repair_events(), Ok(3));
    let mut repaired = event_keys(&silent);
    keys.sort();
    repaired.sort();
    assert_eq!(repaired, keys);
}

#[test]
fn repair_tells_of_each_block_that_a_run_committed() {
    let mut world = World::new();
    let mut run = run_record("run-blocks", "thread-blocks", "agent", RunStatus::Done);
    let ids: Vec<String> = ["a", "b", "d"].iter().map(|id| id.to_string()).collect();
    let (_, input) =
        remo_server::mailbox::helpers::build_run_input("thread-blocks", 5, &ids);
    run.input = Some(input);
    let log = ["x", "a", "b", "c", "d"]
        .iter()
        .map(|id| match *id {
            "x" | "c" => Message::assistant("hello".to_string()).with_id(id.to_string()),
            _ => user("hi").with_id(id.to_string()),
        })
        .collect();
    world.seed("thread-blocks", log, run);
    assert_eq!(world.repair_events(), Ok(5));
    let prefix = "thread-blocks/run-blocks";
    assert_eq!(
        event_keys(&world),
        vec![
            format!("MessageCommitted/{prefix}/a"),
            format!("MessageCommitted/{prefix}/b"),
            format!("ThreadMessagesCheckpointed/{prefix}/2-3"),
            format!("MessageCommitted/{prefix}/d"),
            format!("ThreadMessagesCheckpointed/{prefix}/5-5"),
        ]
    );
}

#[test]
fn repair_tells_of_the_messages_of_a_run_without_triggers() {
    let mut world = World::new();
    let mut run = run_record("run-bare", "thread-bare", "agent", RunStatus::Done);
    let (_, input) =
        remo_server::mailbox::helpers::build_run_input("thread-bare", 1, &Vec::new());
    run.input = Some(input);
    world.seed("thread-bare", vec![user("hi").with_id("m".to_string())], run);
    assert_eq!(world.repair_events(), Ok(1));
    assert_eq!(
        event_keys(&world),
        vec![
            "MessageCommitted/thread-bare/run-bare/m",
            "ThreadMessagesCheckpointed/thread-bare/run-bare/1-1",
        ]
    );
}

/// A run that waited for input and was continued, with what it said in between. Its
/// record names the second message alone.
fn continued_run(world: &mut World, thread_id: &str) -> String {
    let submitted = |id: &str| {
        let mut submitted = request(thread_id, "hi").with_run_id_hint("run-continued".to_string());
        submitted.messages[0].id = Some(id.to_string());
        submitted
    };
    world.prepare(submitted("m-1")).unwrap();
    let answer = Message::assistant("which one?".to_string()).with_id("said".to_string());
    world.logs.get_mut(thread_id).unwrap().push(answer);
    let at = world.runs.iter().position(|run| run.run_id == "run-continued").unwrap();
    world.runs[at].status = RunStatus::Waiting;
    world.runs[at].waiting = Some(RunWaitingState {
        reason: WaitingReason::UserInput,
        resumable: true,
        details: None,
    });
    world.prepare(submitted("m-2")).unwrap();
    let input = world.run("run-continued").input.unwrap();
    assert_eq!(input.trigger_message_ids, vec!["m-2"]);
    assert_eq!(input.range.unwrap().to_seq, 3);
    "run-continued".to_string()
}

#[test]
fn repair_covers_what_a_run_committed_before_it_was_continued() {
    let mut world = World::new();
    continued_run(&mut world, "thread-continued");
    let mut published = event_keys(&world);
    assert_eq!(published.len(), 4);
    world.events.clear();
    assert_eq!(world.repair_events(), Ok(3));
    let mut repaired = event_keys(&world);
    published.sort();
    repaired.sort();
    assert_eq!(repaired, published);
}

#[test]
fn repair_of_a_continued_run_publishes_nothing_new() {
    let mut world = World::new();
    continued_run(&mut world, "thread-continued-published");
    let published = event_keys(&world);
    assert_eq!(world.repair_events(), Ok(3));
    assert_eq!(event_keys(&world), published);
}

#[test]
fn repair_leaves_an_unnamed_message_to_the_first_run_that_reaches_it() {
    let thread_id = "thread-two-runs";
    let mut world = World::new();
    let later = continued_run(&mut world, thread_id);
    let mut whole = run_record("run-later", thread_id, "agent", RunStatus::Done);
    let named = vec!["m-3".to_string()];
    let (_, input) = remo_server::mailbox::helpers::build_run_input(thread_id, 4, &named);
    whole.input = Some(input);
    world.logs.get_mut(thread_id).unwrap().push(user("more").with_id("m-3".to_string()));
    world.runs.insert(0, whole);
    world.events.clear();
    assert_eq!(world.repair_events(), Ok(7));
    let mut keys = event_keys(&world);
    keys.sort();
    assert_eq!(
        keys,
        vec![
            format!("MessageCommitted/{thread_id}/{later}/m-1"),
            format!("MessageCommitted/{thread_id}/{later}/m-2"),
            format!("MessageCommitted/{thread_id}/run-later/m-3"),
            format!("ThreadMessagesCheckpointed/{thread_id}/{later}/1-1"),
            format!("ThreadMessagesCheckpointed/{thread_id}/{later}/3-3"),
            format!("ThreadMessagesCheckpointed/{thread_id}/run-later/4-4"),
        ]
    );
}

#[test]
fn repair_fails_on_a_range_beyond_the_log() {
    let mut world = World::new();
    let mut run = run_record("run-long", "thread-long", "agent", RunStatus::Done);
    let (_, input) = remo_server::mailbox::helpers::build_run_input(
        "thread-long",
        2,
        &vec!["m".to_string()],
    );
    run.input = Some(input);
    world.seed("thread-long", vec![user("hi").with_id("m".to_string())], run);
    assert_eq!(
        world.repair_events().unwrap_err().detail_text(),
        "checkpoint event range 1-2 for thread 'thread-long' run 'run-long' exceeds committed \
         message count 1"
    );
    assert!(world.events.is_empty());
}

#[test]
fn a_checkpoint_event_that_is_not_recorded_is_named() {
    let mut world = World::new();
    world.prepare(request("thread-named", "hi")).unwrap();
    let texts: Vec<String> = world
        .events
        .iter()
        .map(|event| checkpoint_event_not_recorded(event, "down".to_string()).detail_text())
        .collect();
    assert_eq!(
        texts,
        vec![
            "failed to record message committed event: down",
            "failed to record thread messages checkpoint event: down",
        ]
    );
}

fn repair_task(thread_id: &str, run_id: &str) -> remo_server::mailbox::checkpoint_repair::CheckpointRepairTask {
    remo_server::mailbox::checkpoint_repair::CheckpointRepairTask {
        thread_id: thread_id.to_string(),
        run_id: run_id.to_string(),
        first_seq: 1,
        last_seq: 1,
    }
}

#[test]
fn maintenance_drain_republishes_enqueued_checkpoint_repair() {
    let mut world = World::new();
    committed_run(&mut world, "thread-drain", "run-drain", "msg-drain-1");
    world.repairs.enqueue_checkpoint_repair(true, repair_task("thread-drain", "run-drain"));
    world.sweep();
    assert_eq!(world.kinds(), vec!["MessageCommitted", "ThreadMessagesCheckpointed"]);
    let keys: Vec<String> =
        world.events.iter().map(|event| event.idempotency_key.clone()).collect();
    world.repairs.enqueue_checkpoint_repair(true, repair_task("thread-drain", "run-drain"));
    world.sweep();
    let again: Vec<String> =
        world.events[2..].iter().map(|event| event.idempotency_key.clone()).collect();
    assert_eq!(keys, again);
}

#[test]
fn maintenance_drain_requeues_checkpoint_repair_when_messages_missing() {
    let mut world = World::new();
    world.repairs.enqueue_checkpoint_repair(true, repair_task("thread-missing", "run-missing"));
    world.sweep();
    assert!(world.events.is_empty());
    assert_eq!(world.repairs.take_tasks(true), vec![repair_task("thread-missing", "run-missing")]);
}

#[test]
fn checkpoint_event_recording_rejects_out_of_range_message_seq() {
    let message = user("hi").with_id("msg-1".to_string());
    let error = record_thread_message_checkpoint_events(
        true,
        &"thread-range".to_string(),
        &"run-range".to_string(),
        &vec![message],
        1,
        2,
    )
    .unwrap_err();
    assert!(matches!(error.to_error(), MailboxError::Internal(_)));
}

#[test]
fn runtime_event_capture_records_mailbox_dispatch_lifecycle_events() {
    let mut world = World::new();
    let result = world.submit(request("thread-mailbox-events", "hi")).unwrap();
    world.run_started();
    assert_eq!(
        world.kinds(),
        vec!["MessageCommitted", "ThreadMessagesCheckpointed", "RunQueued", "RunSubmitted"]
    );
    let committed = world.event("MessageCommitted");
    assert_eq!(text_field(committed, "message_kind").as_deref(), Some("user_input"));
    match &committed.payload {
        EventPayload::Fields(fields) => {
            let seq = fields.iter().find(|field| field.name == "message_seq").unwrap();
            assert_eq!(seq.value, PayloadValue::Number(1));
        }
        EventPayload::RunFinish { .. } => panic!("unexpected payload"),
    }
    let queued = world.event("RunQueued");
    assert_eq!(text_field(queued, "dispatch_id"), Some(result.dispatch_id.clone()));
    assert_eq!(queued.correlation_id, result.dispatch_id);
}

#[test]
fn runtime_event_capture_records_mailbox_submit_failed_on_enqueue_error() {
    let mut world = World::new();
    world.fail("enqueue", 1);
    let error = world.submit_background(request("thread-submit-failed", "hi")).unwrap_err();
    assert!(error.to_text().contains("injected enqueue failure"));
    assert_eq!(
        world.kinds(),
        vec!["MessageCommitted", "ThreadMessagesCheckpointed", "MailboxSubmitFailed"]
    );
    let event = world.event("MailboxSubmitFailed");
    assert!(!event.run_id.trim().is_empty());
    assert_eq!(text_field(event, "thread_id").as_deref(), Some("thread-submit-failed"));
    assert_eq!(text_field(event, "reason").as_deref(), Some("enqueue_failed"));
    assert!(text_field(event, "error").unwrap().contains("injected enqueue failure"));
}

#[test]
fn a_run_that_was_not_queued_is_stored_and_recovered_under_its_dispatch() {
    let mut world = World::new();
    world.fail("enqueue", 1);
    world.submit_background(request("thread-stored", "hi")).unwrap_err();
    let (run_id, dispatch_id) = {
        let event = world.event("MailboxSubmitFailed");
        (event.run_id.clone(), event.correlation_id.clone())
    };
    let stored = world.run(&run_id);
    assert_eq!(stored.status, RunStatus::Created);
    assert_eq!(stored.dispatch_id.as_deref(), Some(dispatch_id.as_str()));
    assert_eq!(world.messages("thread-stored").len(), 1);
    assert!(world.of_thread("thread-stored").is_empty());

    assert_eq!(world.recover_prepared(Vec::new()), Ok(1));
    let recovered = world.dispatch(&dispatch_id);
    assert_eq!(recovered.run_id, run_id);
    assert_eq!(recovered.thread_id, "thread-stored");
    assert_eq!(world.recover_prepared(Vec::new()), Ok(0));
}

#[test]
fn runtime_event_capture_records_mailbox_resume_failed_on_enqueue_error() {
    let mut world = World::new();
    let thread_id = "thread-resume-failed";
    world.put_run(&waiting_run("run-resume-failed", thread_id, WaitingReason::BackgroundTasks));
    world.fail("enqueue", 1);
    let mut resumed = RunActivation::new(thread_id.to_string(), Vec::new())
        .with_agent_id("agent-1".to_string())
        .with_continue_run_id("run-resume-failed".to_string());
    resumed
        .control
        .seeded_decisions
        .push(SeededDecision { tool_call_id: "tool-1".to_string(), resume: resume() });
    let error = world.submit_background(resumed).unwrap_err();
    assert!(error.to_text().contains("injected enqueue failure"));
    assert_eq!(world.kinds(), vec!["MailboxSubmitFailed", "MailboxResumeFailed"]);
    let event = world.event("MailboxResumeFailed");
    assert_eq!(event.run_id, "run-resume-failed");
    assert_eq!(text_field(event, "thread_id").as_deref(), Some(thread_id));
    assert_eq!(text_field(event, "reason").as_deref(), Some("enqueue_failed"));
    assert!(text_field(event, "error").unwrap().contains("injected enqueue failure"));
    match &event.payload {
        EventPayload::Fields(fields) => {
            let decisions = fields.iter().find(|field| field.name == "decisions").unwrap();
            match &decisions.value {
                PayloadValue::Decisions(decisions) => {
                    assert_eq!(decisions[0].tool_call_id, "tool-1");
                    assert_eq!(decisions[0].decision_id, "d1");
                }
                other => panic!("unexpected value: {other:?}"),
            }
        }
        EventPayload::RunFinish { .. } => panic!("unexpected payload"),
    }
}

#[test]
fn a_publish_failure_blocks_no_run() {
    let mut world = World::new();
    world.fail("publish", 100);
    let result = world.submit(request("thread-advisory", "hi")).unwrap();
    world.run_started();
    assert_eq!(world.dispatch(&result.dispatch_id).status, RunDispatchStatus::Acked);
    assert!(world.events.is_empty());
}

// Live delivery.

#[test]
fn live_then_queue_hands_the_message_to_the_run_under_way() {
    let thread_id = "thread-live-steer";
    let mut world = World::new();
    world.runtime_takes_messages = true;
    let first = world.submit_background(request(thread_id, "start")).unwrap();
    let steered = world.submit_live(request(thread_id, "live steer"), None).unwrap();
    assert_eq!(steered.status, MailboxDispatchStatus::Running);
    assert_eq!(steered.run_id, first.run_id);
    assert_eq!(steered.dispatch_id, first.dispatch_id);
    assert_eq!(world.steered.len(), 1);
    assert_eq!(world.steered[0].text(), "live steer");
    assert_eq!(world.steered[0].role, Role::User);
    assert_eq!(world.steered[0].visibility, Visibility::All);
    // The run keeps what it was handed; the mailbox does not keep it a second time.
    let texts: Vec<String> = world.messages(thread_id).iter().map(|m| m.text()).collect();
    assert_eq!(texts, vec!["start"]);
    world.run_started();
    let latest = world.latest_run(thread_id).unwrap().unwrap();
    assert_eq!(latest.run_id, first.run_id);
    assert_eq!(latest.status, RunStatus::Done);
    let dispatches = world.of_thread(thread_id);
    assert_eq!(dispatches.iter().filter(|d| d.run_id == first.run_id).count(), 1);
}

#[test]
fn live_then_queue_falls_back_to_durable_dispatch_when_receiver_unavailable() {
    let mut world = World::new();
    let active = world.submit_background(request("thread-live-fallback", "active")).unwrap();
    let result = world.submit_live(request("thread-live-fallback", "fallback"), None).unwrap();
    assert_eq!(result.status, MailboxDispatchStatus::Queued);
    assert_ne!(result.dispatch_id, active.dispatch_id);
    let log = world.messages("thread-live-fallback");
    assert_eq!(log.iter().filter(|m| m.text() == "fallback").count(), 1);
    assert_eq!(world.dispatch(&result.dispatch_id).status, RunDispatchStatus::Queued);
}

#[test]
fn live_then_queue_wakes_local_active_pending_run() {
    let thread_id = "thread-local-pending-wake";
    let run_id = "run-local-pending-wake";
    let mut world = World::with_pending();
    world.runtime_takes_messages = true;
    world.run_worker(thread_id, "dispatch-local-pending-wake", run_id, None);
    let result = world.submit_live(request(thread_id, "pending-live"), Some(run_id)).unwrap();
    assert_eq!(result.status, MailboxDispatchStatus::Running);
    assert_eq!(result.run_id, run_id);
    assert_eq!(world.wakes, vec![run_id]);
    let pending = &world.pending[thread_id];
    assert_eq!(pending.len(), 1);
    assert_eq!(pending[0].message.text(), "pending-live");
}

fn running_run(run_id: &str, thread_id: &str, dispatch_id: &str) -> RunRecord {
    let mut run = run_record(run_id, thread_id, "agent-1", RunStatus::Running);
    run.dispatch_id = Some(dispatch_id.to_string());
    run
}

#[test]
fn live_then_queue_publishes_for_remote_active_run() {
    let mut world = World::new();
    world.remote = LiveDeliveryOutcome::Delivered;
    world.put_run(&running_run("run-remote", "thread-remote", "dispatch-remote"));
    let result = world.submit_live(request("thread-remote", "steer-remote"), None).unwrap();
    assert_eq!(result.status, MailboxDispatchStatus::Running);
    assert_eq!(result.run_id, "run-remote");
    assert_eq!(result.dispatch_id, "dispatch-remote");
    assert_eq!(world.delivered.len(), 1);
    match &world.delivered[0].1 {
        LiveRunCommand::Messages(messages) => assert_eq!(messages[0].text(), "steer-remote"),
        other => panic!("unexpected command: {other:?}"),
    }
    assert!(world.of_thread("thread-remote").is_empty());
}

#[test]
fn live_then_queue_stages_remote_running_input_as_next_step_pending() {
    let mut world = World::with_pending();
    world.remote = LiveDeliveryOutcome::Delivered;
    world.put_run(&running_run("run-live-pending", "thread-live-pending", "dispatch-live-pending"));
    let result = world.submit_live(request("thread-live-pending", "steer"), None).unwrap();
    assert_eq!(result.status, MailboxDispatchStatus::Running);
    assert_eq!(result.run_id, "run-live-pending");
    assert_eq!(world.delivered[0].1, LiveRunCommand::PendingBoundaryWake);
    let pending = &world.pending["thread-live-pending"];
    assert_eq!(pending.len(), 1);
    assert_eq!(pending[0].message.text(), "steer");
    assert_eq!(
        pending[0].delivery_mode,
        DeliveryMode {
            boundary: DeliveryBoundary::NextStep,
            granularity: DeliveryGranularity::Batch,
            barrier: false,
            target_run_id: Some("run-live-pending".to_string()),
            fallback_to_new_run: false,
        }
    );
    assert!(world.of_thread("thread-live-pending").is_empty());
}

#[test]
fn live_then_queue_falls_back_to_queue_when_no_remote_subscriber() {
    let thread_id = "thread-no-subscriber";
    let mut world = World::new();
    world.put_run(&running_run("run-no-listener", thread_id, "dispatch-no-listener"));
    let result = world.submit_live(request(thread_id, "hello?"), None).unwrap();
    let all = world.of_thread(thread_id);
    assert_eq!(all.len(), 1);
    assert_eq!(result.dispatch_id, all[0].dispatch_id);
}

#[test]
fn live_then_queue_unstages_what_no_remote_run_takes() {
    let mut world = World::with_pending();
    world.put_run(&running_run("run-gone", "thread-no-subscriber", "dispatch-gone"));
    let result = world.submit_live(request("thread-no-subscriber", "steer"), None).unwrap();
    assert_ne!(result.run_id, "run-gone");
    assert_eq!(world.of_thread("thread-no-subscriber").len(), 1);
    let log = world.messages("thread-no-subscriber");
    assert_eq!(log.iter().filter(|m| m.text() == "steer").count(), 1);
    assert!(world.pending["thread-no-subscriber"].is_empty());
}

#[test]
fn live_then_queue_rejects_remote_mismatched_expected_run_id() {
    let mut world = World::new();
    world.remote = LiveDeliveryOutcome::Delivered;
    world.put_run(&running_run("run-actual", "thread-mismatch", "dispatch-actual"));
    let steer = request("thread-mismatch", "wrong-run");
    let result = world.submit_live(steer, Some("run-stale")).unwrap();
    assert_ne!(result.run_id, "run-actual");
    assert!(world.delivered.is_empty());
}

#[test]
fn foreground_submit_sends_live_cancel_for_remote_active_dispatch() {
    let mut world = World::new();
    world.remote = LiveDeliveryOutcome::Delivered;
    let thread_id = "thread-remote-cancel";
    let active = world.enqueue_prepared(thread_id, "active");
    world.claim_as(thread_id, "remote-consumer", 30_000).unwrap();
    let submitted = world.submit(request(thread_id, "replacement")).unwrap();
    assert_eq!(submitted.status, MailboxDispatchStatus::Running);
    assert_ne!(submitted.dispatch_id, active.dispatch_id);
    assert_eq!(world.delivered[0].1, LiveRunCommand::Cancel);
    let event = world.event("RunInterrupted");
    assert_eq!(text_field(event, "dispatch_id"), Some(active.dispatch_id.clone()));
    assert_eq!(event.correlation_id, active.dispatch_id);
}

fn replacement_is_refused(world: &mut World, thread_id: &str) {
    world.releases = false;
    let active = world.enqueue_prepared(thread_id, "active");
    world.claim_as(thread_id, "remote-consumer", 30_000).unwrap();
    match world.submit(request(thread_id, "replacement")) {
        Err(MailboxError::Validation(message)) => {
            assert_eq!(message, "thread has an active run that could not be cancelled")
        }
        other => panic!("unexpected outcome: {other:?}"),
    }
    let log = world.messages(thread_id);
    assert_eq!(log.len(), 1);
    assert_eq!(log[0].text(), "active");
    let all = world.of_thread(thread_id);
    assert_eq!(all.len(), 1);
    assert_eq!(all[0].dispatch_id, active.dispatch_id);
    assert_eq!(all[0].status, RunDispatchStatus::Claimed);
    assert_eq!(world.events.iter().filter(|e| e.kind == "MailboxTimeout").count(), 1);
}

#[test]
fn foreground_submit_does_not_prepare_replacement_when_remote_cancel_times_out() {
    let mut world = World::new();
    world.remote = LiveDeliveryOutcome::Delivered;
    replacement_is_refused(&mut world, "thread-remote-cancel-timeout");
}

#[test]
fn foreground_submit_does_not_prepare_replacement_when_local_cancel_times_out() {
    let mut world = World::new();
    world.runtime_cancels = true;
    replacement_is_refused(&mut world, "thread-local-cancel-timeout");
    let active = world.of_thread("thread-local-cancel-timeout")[0].dispatch_id.clone();
    let event = world.event("MailboxTimeout");
    assert_eq!(text_field(event, "dispatch_id"), Some(active));
    assert_eq!(text_field(event, "reason").as_deref(), Some("local_cancel_release_wait"));
    assert_eq!(number_field(event, "timeout_ms"), Some(CANCEL_WAIT_MS));
}

#[test]
fn foreground_submit_waits_for_local_cancelled_dispatch_to_release_claim() {
    let mut world = World::new();
    world.mailbox.consumer_id = "foreground-consumer".to_string();
    world.runtime_cancels = true;
    world.releases = false;
    let thread_id = "thread-local-cancel-claim-window";
    let active = world.enqueue_prepared(thread_id, "active");
    world.claim_dispatch(&active.dispatch_id).unwrap().unwrap();
    let result = world.submit(request(thread_id, "replacement"));
    assert!(
        matches!(result, Err(MailboxError::Validation(ref message)) if message == ACTIVE_RUN_CONFLICT_MESSAGE)
    );
    let messages = world.messages(thread_id);
    assert_eq!(messages.len(), 1);
    assert_eq!(messages[0].text(), "active");
    let all = world.of_thread(thread_id);
    assert_eq!(all.len(), 1);
    assert_eq!(all[0].dispatch_id, active.dispatch_id);
    assert_eq!(all[0].status, RunDispatchStatus::Claimed);
}

#[test]
fn foreground_submit_takes_over_once_the_local_claim_is_released() {
    let mut world = World::new();
    world.runtime_cancels = true;
    let thread_id = "thread-local-cancel";
    world.enqueue_prepared(thread_id, "active");
    world.claim_as(thread_id, "test-consumer", 30_000).unwrap();
    let submitted = world.submit(request(thread_id, "replacement")).unwrap();
    assert_eq!(submitted.status, MailboxDispatchStatus::Running);
}

#[test]
fn interrupt_between_claim_and_execution_supersedes_without_runtime_start() {
    let config = MailboxConfig {
        lease_ms: 100,
        lease_renewal_interval: 20,
        ..MailboxConfig::default()
    };
    let mut world = World::with(config, false, false);
    world.mailbox.consumer_id = "epoch-race-consumer".to_string();
    let submitted = world.submit_background(request("thread-epoch-race", "go")).unwrap();
    world.fail("interrupt_on_load", 1);
    world.run_started();
    assert_eq!(world.requests.len(), 0);
    let loaded = world.dispatch(&submitted.dispatch_id);
    assert_eq!(loaded.status, RunDispatchStatus::Superseded);
    assert!(loaded.claim_token.is_none());
    assert!(loaded.lease_until.is_none());
    assert_eq!(
        loaded.last_error.as_deref(),
        Some("claimed dispatch superseded before execution start")
    );
    let run = world.run(&submitted.run_id);
    assert_eq!(run.status, RunStatus::Done);
    assert_eq!(run.termination_reason, Some(TerminationReason::Cancelled));
    assert_eq!(run.dispatch_id.as_deref(), Some(submitted.dispatch_id.as_str()));
}

#[test]
fn late_old_owner_does_not_run_a_dispatch_that_was_reclaimed() {
    let mut world = World::new();
    let submitted = world.submit_background(request("thread-late-owner", "go")).unwrap();
    world.now += 60_000;
    world.reclaim().unwrap();
    world.claim_as("thread-late-owner", "new-owner", 30_000).unwrap();
    world.run_started();
    let dispatch = world.dispatch(&submitted.dispatch_id);
    assert_eq!(dispatch.status, RunDispatchStatus::Claimed);
    assert_eq!(dispatch.claimed_by.as_deref(), Some("new-owner"));
    assert_eq!(world.requests.len(), 0);
}

#[test]
fn background_wake_is_an_internal_message() {
    let mut world = World::new();
    let waiting = waiting_run("run-bg-done", "thread-bg-done", WaitingReason::BackgroundTasks);
    world.put_run(&waiting);
    let wake = remo_server::mailbox::recovery::background_wake(&waiting);
    let submitted = world.submit_background(wake).unwrap();
    assert_eq!(submitted.run_id, "run-bg-done");
    let log = world.messages("thread-bg-done");
    assert_eq!(log[0].text(), "<background-tasks-updated />");
    assert_eq!(log[0].visibility, remo_server::message::Visibility::Internal);
}

// Worker tables.

#[test]
fn gc_idle_workers_removes_idle_with_no_dispatches() {
    let mut world = World::new();
    world.kick("thread-gc");
    assert!(world.workers.get("thread-gc").is_some());
    assert_eq!(world.collect(), 1);
    assert!(world.workers.get("thread-gc").is_none());
}

#[test]
fn gc_idle_workers_keeps_worker_with_queued_dispatches() {
    let mut world = World::new();
    world.enqueue_prepared("thread-gc-keep", "hi");
    world.workers.get_or_create_worker(&"thread-gc-keep".to_string());
    assert_eq!(world.collect(), 0);
    assert!(world.workers.get("thread-gc-keep").is_some());
}

#[test]
fn gc_idle_workers_noop_when_empty() {
    let mut world = World::new();
    assert_eq!(world.collect(), 0);
}

#[test]
fn reconnect_sink_succeeds_for_running_worker() {
    let mut world = World::new();
    world.run_worker("thread-reconnect", "dispatch-fake", "run-fake", None);
    assert!(world.mailbox.reconnect_sink(&world.workers, "thread-reconnect").is_some());
}

#[test]
fn reconnect_sink_fails_unless_a_run_is_under_way() {
    let mut world = World::new();
    assert!(world.mailbox.reconnect_sink(&world.workers, "thread-sink").is_none());
    world.kick("thread-sink");
    assert!(world.mailbox.reconnect_sink(&world.workers, "thread-sink").is_none());
    world.submit_background(request("thread-sink", "go")).unwrap();
    assert!(world.mailbox.reconnect_sink(&world.workers, "thread-sink").is_some());
    world.run_started();
    assert!(world.mailbox.reconnect_sink(&world.workers, "thread-sink").is_none());
}

#[test]
fn thread_context_cache_cleared_on_idle_transition() {
    let thread_id = "thread-ctx-clear";
    let mut world = World::new();
    let run = run_record("r1", thread_id, "agent", RunStatus::Done);
    world.seed(thread_id, vec![user("hi")], run.clone());
    let context = Context { messages: world.messages(thread_id), latest: Some(run) };
    world.run_worker(thread_id, "d1", "r1", Some(context));
    let worker = world.workers.get(thread_id).unwrap();
    assert_eq!(worker.thread_ctx.as_ref().unwrap().messages.len(), 1);
    assert!(world.workers.finish_execution(&thread_id.to_string(), "d1").is_some());
    assert!(world.workers.get(thread_id).unwrap().thread_ctx.is_none());
}

#[test]
fn thread_context_cache_updated_after_prepare_checkpoint() {
    let thread_id = "thread-ctx-checkpoint";
    let mut world = World::new();
    let run = run_record("run-prev", thread_id, "agent", RunStatus::Done);
    world.seed(thread_id, vec![user("first")], run.clone());
    // A worker with the thread in its cache.
    let context = Context { messages: world.messages(thread_id), latest: Some(run) };
    world.run_worker(thread_id, "dispatch-prev", "run-prev", Some(context));
    let (_, run_id) = world.prepare(request(thread_id, "second")).unwrap();
    let worker = world.workers.get(thread_id).unwrap();
    let context = worker.thread_ctx.as_ref().unwrap();
    assert_eq!(context.messages.len(), 2);
    assert_eq!(context.latest.as_ref().unwrap().run_id, run_id);
}

#[test]
fn prepare_run_uses_durable_messages_when_active_cache_is_stale() {
    let thread_id = "thread-stale-cache";
    let mut world = World::new();
    let active = run_record("run-active", thread_id, "agent", RunStatus::Running);
    world.seed(thread_id, vec![user("first")], active.clone());
    let stale = Context { messages: world.messages(thread_id), latest: Some(active.clone()) };
    world.run_worker(thread_id, "dispatch-active", "run-active", Some(stale));
    // The run appends to the log while the worker has the older one in its cache.
    let output = Message::assistant("active output".to_string());
    world.seed(thread_id, vec![user("first"), output], active);
    let (_, run_id) = world.prepare(request(thread_id, "second")).unwrap();
    let stored = world.messages(thread_id);
    assert_eq!(stored.len(), 3);
    assert_eq!(stored[1].text(), "active output");
    assert_eq!(stored[2].text(), "second");
    assert_eq!(world.run(&run_id).input.unwrap().range.unwrap().to_seq, 3);
}

// Pending messages.

fn mode(boundary: DeliveryBoundary) -> DeliveryMode {
    DeliveryMode {
        boundary,
        granularity: DeliveryGranularity::Batch,
        barrier: false,
        target_run_id: None,
        fallback_to_new_run: false,
    }
}

#[test]
fn recover_detects_orphaned_pending_thread() {
    let mut world = World::with_pending();
    let stranded = user("stranded").with_id("p1".to_string());
    world.append_pending("thread-orphan", vec![stranded], &mode(DeliveryBoundary::NewRun));
    assert_eq!(world.scan_orphans(Vec::new()), Ok(1));
    assert_eq!(world.scan_orphans(vec!["thread-orphan".to_string()]), Ok(0));
    world.put_run(&run_record("run-busy", "thread-orphan", "agent", RunStatus::Running));
    assert_eq!(world.scan_orphans(Vec::new()), Ok(0));
}

#[test]
fn recover_pages_through_all_orphaned_pending_threads() {
    let mut world = World::with_pending();
    let total = PENDING_RECOVERY_PAGE_SIZE + 5;
    for i in 0..total {
        let stranded = user("stranded").with_id(format!("p{i:04}"));
        let thread_id = format!("thread-orphan-{i:04}");
        world.append_pending(&thread_id, vec![stranded], &mode(DeliveryBoundary::NewRun));
    }
    assert_eq!(world.scan_orphans(Vec::new()), Ok(total));
}

#[test]
fn pending_message_edit_after_freeze_returns_consumed_error() {
    let thread_id = "thread-edit-consumed";
    let mut world = World::with_pending();
    let sent = vec![user("sent").with_id("sent-id".to_string())];
    let delivered = world.append_pending(thread_id, sent, &mode(DeliveryBoundary::NewRun));
    let (frozen, _) = world.prepare_boundary(thread_id, DeliveryBoundary::NewRun, "run-consumed");
    assert!(frozen.is_some());
    let pending_id = &delivered[0].pending_id;
    let late = user("too late").with_id(pending_id.clone());
    let edited = match world.pending[thread_id].iter().find(|e| e.pending_id == *pending_id) {
        Some(entry) => Ok(PendingMessageRecord { message: late, ..entry.clone() }),
        None => Err(StorageError::Validation(format!(
            "pending message '{pending_id}' is already consumed"
        ))),
    };
    let error = world.mailbox.update_pending_message_checked(edited).unwrap_err();
    assert!(error.to_error().to_text().contains("already consumed"));
}

#[test]
fn refusals_of_the_pending_store_are_told() {
    let world = World::with_pending();
    let consumed = "pending message 'sent-id' is already consumed";
    let gone = Err(StorageError::Validation(consumed.to_string()));
    let error = world.mailbox.update_pending_message_checked(gone).unwrap_err();
    assert!(error.to_error().to_text().contains("already consumed"));
    let gone = Err(StorageError::Validation(consumed.to_string()));
    assert!(cleanup_appended_pending_message(gone.as_ref().unwrap_err()));
    let error = world.mailbox.retract_pending_message_checked(gone).unwrap_err();
    assert!(error.to_error().to_text().contains("already consumed"));
    let without = World::new();
    let fault = without.mailbox.reorder_pending_messages_checked(Ok(Vec::new())).unwrap_err();
    assert_eq!(fault, Fault::PendingStoreMissing);
}

#[test]
fn foreground_prepare_consumes_messages_through_interrupt_boundary() {
    let mut world = World::with_pending();
    let now = user("interrupt now").with_id("interrupt-id".to_string());
    let foreground = RunActivation::new("thread-foreground-pending".to_string(), vec![now])
        .with_agent_id("agent-1".to_string());
    let (_, run_id) = world.prepare(foreground).unwrap();
    let log = world.messages("thread-foreground-pending");
    assert_eq!(log.len(), 1);
    assert_eq!(log[0].text(), "interrupt now");
    assert!(world.pending["thread-foreground-pending"].is_empty());
    let snapshot = world.run(&run_id).activation.unwrap();
    assert_eq!(snapshot.input.trigger_message_ids, vec!["interrupt-id".to_string()]);
}

#[test]
fn submit_background_batches_existing_new_run_pending_messages() {
    let thread_id = "thread-submit-batch";
    let mut world = World::with_pending();
    let earlier = normalize_message_ids(vec![user("earlier")]);
    world.append_pending(thread_id, earlier, &mode(DeliveryBoundary::NewRun));
    let later = RunActivation::new(thread_id.to_string(), vec![user("later")]);
    let submitted = world.submit_background(later).unwrap();
    let committed = world.messages(thread_id);
    assert_eq!(committed.len(), 2);
    assert_eq!(committed[0].text(), "earlier");
    assert_eq!(committed[1].text(), "later");
    assert!(world.pending[thread_id].is_empty());
    let triggers = world.run(&submitted.run_id).activation.unwrap().input.trigger_message_ids;
    assert_eq!(triggers.len(), 2);
    assert_eq!(Some(&triggers[0]), committed[0].id.as_ref());
}

#[test]
fn internal_wake_skips_pending() {
    let messages = vec![user("wake").with_id("u-wake".to_string())];
    let mut wake = RunActivation::new("thread-wake".to_string(), messages.clone())
        .with_run_id_hint("run-wake".to_string());
    wake.trace.run_mode = RunMode::InternalWake;
    assert!(prepare_pending_messages_for_dispatch(true, &wake, &messages).is_none());
}

#[test]
fn internal_wake_is_appended_and_not_staged() {
    let mut world = World::with_pending();
    let waiting = waiting_run("run-wake", "thread-wake", WaitingReason::BackgroundTasks);
    world.put_run(&waiting);
    let wake = remo_server::mailbox::recovery::background_wake(&waiting);
    world.submit_background(wake).unwrap();
    assert!(world.pending.is_empty());
    assert_eq!(world.messages("thread-wake").len(), 1);
}

fn template_of(world: &mut World, thread_id: &str) -> (String, RunActivationSnapshot) {
    let (_, run_id) = world.prepare(request(thread_id, "first")).unwrap();
    let template = world.run(&run_id).activation.unwrap();
    (run_id, template)
}

#[test]
fn boundary_freeze_accumulates_run_input_across_freezes() {
    let thread_id = "thread-acc";
    let mut world = World::with_pending();
    let run_id = "run-acc".to_string();
    world.put_run(&run_record("run-acc", thread_id, "agent-1", RunStatus::Created));
    let request = RunActivation::new(thread_id.to_string(), Vec::new())
        .with_run_id_hint("run-acc".to_string());
    for (text, id) in [("a", "a-id"), ("b", "b-id")] {
        let handler = world
            .mailbox
            .pending_boundary_handler(&request, &run_id, "resolution-test".to_string())
            .unwrap();
        let message = user(text).with_id(id.to_string());
        world.append_pending(thread_id, vec![message], &mode(DeliveryBoundary::NextStep));
        let frozen = world
            .freeze_boundary(
                &handler.thread_id,
                &handler.run_id,
                DeliveryBoundary::NextStep,
                handler.snapshot_template,
            )
            .unwrap()
            .unwrap();
        assert_eq!(frozen.len(), 1);
        assert_eq!(frozen[0].text(), text);
    }
    assert_eq!(world.run("run-acc").input.unwrap().trigger_message_ids, vec!["a-id", "b-id"]);
}

#[test]
fn boundary_freeze_adds_to_the_input_of_the_submit() {
    let mut world = World::with_pending();
    let (run_id, template) = template_of(&mut world, "thread-acc");
    let first_id = template.input.trigger_message_ids[0].clone();
    for id in ["a-id", "b-id"] {
        let message = user(id).with_id(id.to_string());
        world.append_pending("thread-acc", vec![message], &mode(DeliveryBoundary::NextStep));
        let frozen = world
            .freeze_boundary("thread-acc", &run_id, DeliveryBoundary::NextStep, template.clone())
            .unwrap()
            .unwrap();
        assert_eq!(frozen[0].text(), id);
    }
    let input = world.run(&run_id).input.unwrap();
    assert_eq!(
        input.trigger_message_ids,
        vec![first_id, "a-id".to_string(), "b-id".to_string()]
    );
    assert_eq!(input.range.unwrap().to_seq, 3);
}

#[test]
fn boundary_freeze_uses_requested_delivery_boundary() {
    let thread_id = "thread-next-step";
    let mut world = World::with_pending();
    let messages = vec![
        user("next").with_id("next-id".to_string()),
        user("new").with_id("new-id".to_string()),
    ];
    world.append_pending(thread_id, messages, &mode(DeliveryBoundary::NextStep));
    let (run_id, _) =
        world.prepare_boundary(thread_id, DeliveryBoundary::NextStep, "run-next-step");
    assert_eq!(run_id.as_deref(), Some("run-next-step"));
    assert_eq!(world.messages(thread_id).len(), 2);
    let run = world.run("run-next-step");
    assert_eq!(run.activation.unwrap().input.trigger_message_ids, vec!["next-id", "new-id"]);
}

#[test]
fn boundary_freeze_leaves_messages_of_another_boundary() {
    let mut world = World::with_pending();
    let (run_id, template) = template_of(&mut world, "thread-boundary");
    let other = user("other").with_id("other-id".to_string());
    world.append_pending("thread-boundary", vec![other], &mode(DeliveryBoundary::NewRun));
    let none = world
        .freeze_boundary("thread-boundary", &run_id, DeliveryBoundary::NextStep, template)
        .unwrap();
    assert!(none.is_none());
    assert_eq!(world.pending["thread-boundary"].len(), 1);
}

#[test]
fn boundary_freeze_of_an_unknown_run_fails() {
    let mut world = World::with_pending();
    let (_, template) = template_of(&mut world, "thread-boundary");
    let error = world
        .freeze_boundary("thread-boundary", "no-such-run", DeliveryBoundary::NextStep, template)
        .unwrap_err();
    assert!(error.to_text().contains("no-such-run"));
}

#[test]
fn freeze_retry_after_conflict_does_not_leave_phantom_trigger_ids() {
    let thread_id = "thread-conflict";
    let mut world = World::with_pending();
    let messages =
        vec![user("b1").with_id("b1-id".to_string()), user("b2").with_id("b2-id".to_string())];
    world.append_pending(thread_id, messages, &mode(DeliveryBoundary::NewRun));
    world.retracted = Some("b2-id".to_string());
    let (run_id, record) =
        world.prepare_boundary(thread_id, DeliveryBoundary::NewRun, "run-conflict");
    assert_eq!(run_id.as_deref(), Some("run-conflict"));
    let triggers = record.input.unwrap().trigger_message_ids;
    assert_eq!(triggers, vec!["b1-id"]);
    let committed = world.messages(thread_id);
    assert_eq!(committed.len(), 1);
    assert_eq!(committed[0].text(), "b1");
    let stored = world.run("run-conflict");
    assert_eq!(stored.input.unwrap().trigger_message_ids, vec!["b1-id"]);
    assert_eq!(stored.activation.unwrap().input.trigger_message_ids, vec!["b1-id"]);
}

#[test]
fn freeze_retry_after_conflict_keeps_the_messages_of_another_instance() {
    let mut world = World::with_pending();
    let (run_id, template) = template_of(&mut world, "thread-conflict");
    let first_id = template.input.trigger_message_ids[0].clone();
    let message = user("b1").with_id("b1-id".to_string());
    world.append_pending("thread-conflict", vec![message], &mode(DeliveryBoundary::NextStep));
    world.commit_conflicts = 1;
    world
        .freeze_boundary("thread-conflict", &run_id, DeliveryBoundary::NextStep, template)
        .unwrap()
        .unwrap();
    let input = world.run(&run_id).input.unwrap();
    assert_eq!(input.trigger_message_ids, vec![first_id, "b1-id".to_string()]);
    assert_eq!(input.range.unwrap().to_seq, 3);
    let texts: Vec<String> = world.messages("thread-conflict").iter().map(|m| m.text()).collect();
    assert_eq!(texts, vec!["first", "from another instance", "b1"]);
}

#[test]
fn freeze_event_publish_failure_is_repairable_success() {
    let thread_id = "thread-event-fail";
    let mut world = World::with_pending();
    let queued = vec![user("queued").with_id("evt-id".to_string())];
    world.append_pending(thread_id, queued, &mode(DeliveryBoundary::NewRun));
    world.fail("publish", 100);
    let (frozen, _) = world.prepare_boundary(thread_id, DeliveryBoundary::NewRun, "run-event-fail");
    assert_eq!(frozen.as_deref(), Some("run-event-fail"));
    let committed = world.messages(thread_id);
    assert_eq!(committed.len(), 1);
    assert_eq!(committed[0].id.as_deref(), Some("evt-id"));
    assert!(world.pending[thread_id].is_empty());
    assert!(world.events.is_empty());
    world.fail("publish", 0);
    world.sweep();
    assert_eq!(world.kinds(), vec!["MessageCommitted", "ThreadMessagesCheckpointed"]);
    assert_eq!(world.events[0].run_id, "run-event-fail");
}

#[test]
fn preflight_foreground_blocked_by_leading_barrier() {
    let mut world = World::with_pending();
    let mut barrier = mode(DeliveryBoundary::NewRun);
    barrier.barrier = true;
    let queued = user("queued").with_id("p-barrier".to_string());
    world.append_pending("t-barrier", vec![queued], &barrier);
    match world.submit(request("t-barrier", "now")) {
        Err(MailboxError::DeliveryBlockedByBarrier { blocking_pending_id }) => {
            assert_eq!(blocking_pending_id, "p-barrier")
        }
        other => panic!("unexpected outcome: {other:?}"),
    }
    assert!(world.epochs.is_empty());
    assert!(world.messages("t-barrier").is_empty());
}

#[test]
fn preflight_foreground_allows_empty_and_skippable_pending() {
    let mut world = World::with_pending();
    assert!(world.submit(request("t-empty", "now")).is_ok());
    let queued = user("queued").with_id("p1".to_string());
    world.append_pending("t-skip", vec![queued], &mode(DeliveryBoundary::NewRun));
    assert!(world.submit(request("t-skip", "now")).is_ok());
    assert_eq!(world.pending["t-skip"].len(), 1);
}

#[test]
fn concurrent_staged_submits_lose_no_message() {
    // Four nodes with one store that stages messages as pending. Their operations
    // alternate, so that freezes meet conflicts and take what others staged.
    let thread_id = "thread-staged-race";
    let mut world = World::with_pending();
    let mut lanes: Vec<Option<RunPreparation>> = (0..4)
        .map(|i| {
            let text = format!("staged-{i}");
            let mut submitted = request(thread_id, &text);
            submitted.messages[0].id = Some(text);
            let messages = submitted.messages.clone();
            let scope = PrepareScope { thread_id: thread_id.to_string(), has_pending_store: true };
            Some(RunPreparation::prepare_run_for_dispatch(scope, submitted, messages))
        })
        .collect();
    let mut run_ids = Vec::new();
    let mut conflicts = 0;
    while lanes.iter().any(|lane| lane.is_some()) {
        for lane in lanes.iter_mut() {
            let Some(preparation) = lane.take() else {
                continue;
            };
            if let PrepareStep::Done { outcome } = preparation.step {
                run_ids.push(outcome.unwrap());
                continue;
            }
            let reply = world.prepare_once(&preparation);
            if matches!(reply, PrepareReply::Freezing(FreezeReply::Frozen(Err(_)))) {
                conflicts += 1;
            }
            assert!(preparation.expects(&reply));
            *lane = Some(preparation.advance(reply));
        }
    }
    assert!(conflicts > 0);
    assert_eq!(run_ids.len(), 4);
    let log = world.messages(thread_id);
    let waiting = world.pending.get(thread_id).cloned().unwrap_or_default();
    for i in 0..4 {
        let id = format!("staged-{i}");
        let committed = log.iter().filter(|m| m.id.as_ref() == Some(&id)).count();
        let staged = waiting.iter().filter(|e| e.message.id.as_ref() == Some(&id)).count();
        assert_eq!(committed + staged, 1);
    }
    assert_eq!(log.len() + waiting.len(), 4);
    for run_id in &run_ids {
        for trigger in world.run(run_id).input.unwrap().trigger_message_ids {
            assert!(log.iter().any(|m| m.id.as_ref() == Some(&trigger)));
        }
    }
}

fn legacy_run(extras: Option<serde_json::Value>) -> RunRecord {
    let mut run = run_record("run-legacy", "thread-legacy", "agent", RunStatus::Created);
    run.parent_run_id = Some("run-parent".to_string());
    run.resolution_id = Some("resolution-legacy".to_string());
    run.request = Some(RunRequestSnapshot {
        input_message_ids: vec!["m".to_string()],
        input_message_count: 1,
        request_extras: extras,
    });
    let named = vec!["m".to_string()];
    let (_, input) = remo_server::mailbox::helpers::build_run_input("thread-legacy", 1, &named);
    run.input = Some(input);
    run
}

fn legacy_extras() -> LegacyRunSnapshotExtras {
    LegacyRunSnapshotExtras::from_request(&request("thread-legacy", "hi"))
}

fn conversion_of(run: &RunRecord) -> LegacyConversion {
    let dispatch = RunDispatch::queued(
        "dispatch-legacy".to_string(),
        "thread-legacy".to_string(),
        "run-legacy".to_string(),
        1,
        5,
    );
    let mut flow = Reconstruction::reconstruct_run_request(dispatch, None);
    loop {
        let reply = match flow.step {
            ReplayStep::LoadRun => ReplayReply::Run(Ok(Some(run.clone()))),
            ReplayStep::ReadCache { .. } => ReplayReply::Cached(None),
            ReplayStep::LoadMessage { .. } => ReplayReply::Message(Ok(Some(MessageRecord {
                seq: 1,
                message: user("hi").with_id("m".to_string()),
            }))),
            ReplayStep::LoadRange { .. } => ReplayReply::Range(Ok(Vec::new())),
            ReplayStep::ParseExtras { .. } => ReplayReply::Extras(Ok(legacy_extras())),
            ReplayStep::Convert { conversion, .. } => return conversion,
            ReplayStep::Done { outcome } => panic!("unexpected outcome: {outcome:?}"),
        };
        assert!(flow.expects(&reply));
        flow = flow.advance(reply);
    }
}

#[test]
fn legacy_run_is_converted_from_what_its_record_says() {
    let run = legacy_run(None);
    let conversion = conversion_of(&run);
    assert_eq!(conversion.request, run.request.clone().unwrap());
    assert_eq!(conversion.input, run.input);
    assert_eq!(conversion.resolution_id.as_deref(), Some("resolution-legacy"));
    assert_eq!(conversion.thread_id, "thread-legacy");
    assert_eq!(conversion.agent_id.as_deref(), Some("agent"));
    assert_eq!(conversion.parent_run_id.as_deref(), Some("run-parent"));
    assert_eq!(conversion.extras, None);
    let mut nameless = run;
    nameless.agent_id = " ".to_string();
    assert_eq!(conversion_of(&nameless).agent_id, None);
}

#[test]
fn legacy_run_is_converted_with_the_extras_that_were_parsed() {
    let run = legacy_run(Some(json("{}")));
    assert_eq!(conversion_of(&run).extras, Some(legacy_extras()));
}

#[test]
fn a_step_that_publishes_nothing_has_no_event() {
    let world = World::new();
    assert_eq!(world.mailbox.submit(request("thread-silent", "hi")).event(CANCEL_WAIT_MS), None);
    assert_eq!(recover_event(&RecoverStep::Reclaim), None);
    assert_eq!(sweep_event(&SweepStep::Reclaim), None);
    let dispatch = RunDispatch::queued(
        "dispatch-silent".to_string(),
        "thread-silent".to_string(),
        "run-silent".to_string(),
        1,
        5,
    );
    assert_eq!(TerminalMark::mark_superseded_dispatch_run_cancelled(dispatch).event(), None);
}

#[test]
fn a_reclaimed_dispatch_is_told_of_with_its_reason() {
    let mut dispatch = RunDispatch::queued(
        "dispatch-reclaimed".to_string(),
        "thread-reclaimed".to_string(),
        "run-reclaimed".to_string(),
        1,
        5,
    );
    let step = SweepStep::PublishRescheduled { reclaimed: vec![dispatch.clone()], at: 0 };
    let event = sweep_event(&step).unwrap();
    assert_eq!(event.kind, "RunRescheduled");
    assert_eq!(text_field(&event, "reason").as_deref(), Some("expired_lease_reclaimed"));
    let step = RecoverStep::PublishRescheduled { reclaimed: vec![dispatch.clone()], at: 0 };
    assert_eq!(recover_event(&step), Some(event));
    dispatch.status = RunDispatchStatus::DeadLetter;
    let step = SweepStep::PublishRescheduled { reclaimed: vec![dispatch], at: 0 };
    assert_eq!(sweep_event(&step), None);
}
