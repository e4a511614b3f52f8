//! What the mailbox knows of its executor and its stores, and the operations that
//! its callers begin.

use vstd::prelude::*;

use crate::activation::{RunActivation, RunMode, ToolCallResume};
use crate::delivery::PendingMessageRecord;
use crate::dispatch::RunDispatch;
use crate::error::{Fault, MailboxError, StorageError};
use crate::ids::is_uuid;
use crate::mailbox::cancel::{CancelStep, Cancellation, InterruptStep, ThreadInterrupt};
use crate::mailbox::config::MailboxConfig;
use crate::mailbox::decision::{DecisionDelivery, DecisionStep};
use crate::mailbox::helpers::{have_ids, normalize_message_ids, with_normalized_mode};
use crate::mailbox::lifecycle::{
    maintenance_work, start_decision, start_lifecycle, MaintenanceTick, MaintenanceWork, ReadyStep,
    StartDecision, TransitionTry, LIFECYCLE_START_TRIES,
};
use crate::mailbox::live_delivery::ActiveRun;
use crate::mailbox::pending_boundary::PendingBoundaryHandler;
use crate::mailbox::prepare_run::{
    empty_input, is_activation_snapshot, no_input, run_activation_snapshot, RunIds,
};
use crate::mailbox::recovery::RecoverStep;
use crate::mailbox::signal_loop::concurrent_signal_handlers;
use crate::mailbox::submit::{
    begins_live, begins_preparing, failed, is_draft, is_submittable, Draft, LiveQueueStep,
    LiveThenQueue, Submission, SubmitSettings, SubmitStep,
};
use crate::mailbox::workers::{MailboxWorkerStatus, WorkerTable};
use crate::message::Message;

verus! {

/// What an executor offers beside running dispatches.
#[derive(Clone, Copy, Debug, PartialEq, Eq, Structural)]
pub struct ExecutorFacilities {
    pub has_commit_coordinator: bool,
    pub has_staged_coordinator: bool,
}

/// What a mailbox can be built with: it tells what it offers.
pub trait IntoDispatchExecutor: Sized {
    /// What the executor offers.
    spec fn offered(self) -> ExecutorFacilities;

    /// What the executor offers.
    fn into_dispatch_executor(self) -> (r: ExecutorFacilities)
        ensures
            r == self.offered(),
    ;
}

impl IntoDispatchExecutor for ExecutorFacilities {
    open spec fn offered(self) -> ExecutorFacilities {
        self
    }

    fn into_dispatch_executor(self) -> (r: ExecutorFacilities) {
        self
    }
}

/// How durably runtime events are captured.
#[derive(Clone, Copy, Debug, PartialEq, Eq, Structural)]
pub enum RuntimeEventDurability {
    Disabled,
    Compacted,
}

/// The capture of runtime events: how durable, and from which origin.
#[derive(Debug, PartialEq)]
pub struct RuntimeEventCaptureConfig {
    pub mode: RuntimeEventDurability,
    pub origin: String,
}

/// A mailbox: what decides how its operations go.
#[derive(Debug, PartialEq)]
pub struct Mailbox {
    pub consumer_id: String,
    pub config: MailboxConfig,
    pub executor: ExecutorFacilities,
    pub has_pending_store: bool,
    pub has_publisher: bool,
    pub server_event_origin: String,
    pub runtime_event_capture: Option<RuntimeEventCaptureConfig>,
}

/// Under what the runtime events of a run are captured.
#[derive(Debug, PartialEq)]
pub struct RuntimeEventScope {
    pub thread_id: String,
    pub run_id: String,
    pub origin: String,
    pub correlation_id: String,
    /// Whether the run goes on, so that its start is told as a resumption.
    pub resumed: bool,
    pub mode: RuntimeEventDurability,
}

/// A reply of a store as the mailbox reports it.
pub open spec fn reported<T>(reply: Result<T, StorageError>) -> Result<T, MailboxError> {
    match reply {
        Ok(value) => Ok(value),
        Err(error) => Err(MailboxError::Store(error)),
    }
}

fn report<T>(reply: Result<T, StorageError>) -> (r: Result<T, MailboxError>)
    ensures
        r == reported(reply),
{
    match reply {
        Ok(value) => Ok(value),
        Err(error) => Err(MailboxError::Store(error)),
    }
}

/// What follows a pull of dispatch signals.
#[derive(Clone, Copy, Debug, PartialEq, Eq, Structural)]
pub enum SignalPull {
    /// Handle the signals, so many at once.
    Handle { concurrent: usize },
    /// There is nothing to handle: pull again.
    PullAgain,
    /// The pull failed: wait, and pull again.
    Wait,
}

impl Mailbox {
    /// A mailbox without a pending store, a publisher or a capture of events.
    pub fn new<E: IntoDispatchExecutor>(executor: E, consumer_id: String, config: MailboxConfig) -> (r:
        Mailbox)
        ensures
            r.consumer_id == consumer_id,
            r.config == config,
            r.executor == executor.offered(),
            !r.has_pending_store,
            !r.has_publisher,
            r.server_event_origin@.len() == 0,
            r.runtime_event_capture is None,
    {
        Mailbox {
            consumer_id,
            config,
            executor: executor.into_dispatch_executor(),
            has_pending_store: false,
            has_publisher: false,
            server_event_origin: String::new(),
            runtime_event_capture: None,
        }
    }

    /// A mailbox whose pending messages are kept by the store of its committed
    /// messages and run records.
    pub fn new_with_pending_thread_run_store<E: IntoDispatchExecutor>(
        executor: E,
        consumer_id: String,
        config: MailboxConfig,
    ) -> (r: Mailbox)
        ensures
            r.consumer_id == consumer_id,
            r.config == config,
            r.executor == executor.offered(),
            r.has_pending_store,
            !r.has_publisher,
            r.server_event_origin@.len() == 0,
            r.runtime_event_capture is None,
    {
        let mut mailbox = Mailbox::new(executor, consumer_id, config);
        mailbox.has_pending_store = true;
        mailbox
    }

    /// The mailbox once it captures runtime events, or why it cannot.
    pub open spec fn capturing(
        self,
        mode: RuntimeEventDurability,
        origin: String,
        origin_error: Option<String>,
    ) -> Result<Mailbox, Fault> {
        if mode == RuntimeEventDurability::Disabled {
            Ok(Mailbox { runtime_event_capture: None, ..self })
        } else if !self.executor.has_commit_coordinator {
            Err(Fault::CommitCoordinatorMissing)
        } else if !self.executor.has_staged_coordinator {
            Err(Fault::StagedCoordinatorMissing)
        } else {
            match origin_error {
                Some(error) => Err(Fault::OriginInvalid { error }),
                None => Ok(
                    Mailbox {
                        runtime_event_capture: Some(RuntimeEventCaptureConfig { mode, origin }),
                        ..self
                    },
                ),
            }
        }
    }

    /// Capture runtime events, or stop to where the mode is disabled. The executor
    /// needs both of its coordinators. `origin_error` is what is wrong with the
    /// origin, if anything; it does not matter where nothing is captured.
    pub fn with_runtime_event_capture(
        self,
        mode: RuntimeEventDurability,
        origin: String,
        origin_error: Option<String>,
    ) -> (r: Result<Mailbox, Fault>)
        ensures
            r == self.capturing(mode, origin, origin_error),
            r == (if mode == RuntimeEventDurability::Disabled {
                Ok(Mailbox { runtime_event_capture: None, ..self })
            } else if !self.executor.has_commit_coordinator {
                Err(Fault::CommitCoordinatorMissing)
            } else if !self.executor.has_staged_coordinator {
                Err(Fault::StagedCoordinatorMissing)
            } else {
                match origin_error {
                    Some(error) => Err(Fault::OriginInvalid { error }),
                    None => Ok(
                        Mailbox {
                            runtime_event_capture: Some(RuntimeEventCaptureConfig { mode, origin }),
                            ..self
                        },
                    ),
                }
            }),
            r matches Ok(mailbox) ==> (mailbox.runtime_event_capture is Some
                ==> mailbox.executor.has_commit_coordinator
                && mailbox.executor.has_staged_coordinator),
    {
        let mut mailbox = self;
        if mode == RuntimeEventDurability::Disabled {
            mailbox.runtime_event_capture = None;
            return Ok(mailbox);
        }
        if !mailbox.executor.has_commit_coordinator {
            return Err(Fault::CommitCoordinatorMissing);
        }
        if !mailbox.executor.has_staged_coordinator {
            return Err(Fault::StagedCoordinatorMissing);
        }
        match origin_error {
            Some(error) => Err(Fault::OriginInvalid { error }),
            None => {
                mailbox.runtime_event_capture = Some(RuntimeEventCaptureConfig { mode, origin });
                Ok(mailbox)
            },
        }
    }

    /// Publish the events of the server. `origin_error` is what is wrong with the
    /// origin, if anything.
    pub fn with_server_event_publisher(self, origin: String, origin_error: Option<String>) -> (r:
        Result<Mailbox, Fault>)
        ensures
            r == (match origin_error {
                Some(error) => Err(Fault::OriginInvalid { error }),
                None => Ok(
                    Mailbox { has_publisher: true, server_event_origin: origin, ..self },
                ),
            }),
    {
        match origin_error {
            Some(error) => Err(Fault::OriginInvalid { error }),
            None => {
                let mut mailbox = self;
                mailbox.has_publisher = true;
                mailbox.server_event_origin = origin;
                Ok(mailbox)
            },
        }
    }

    /// What of this mailbox a submit depends on.
    pub open spec fn submit_settings(self) -> SubmitSettings {
        SubmitSettings {
            has_pending_store: self.has_pending_store,
            max_attempts: self.config.default_max_attempts,
        }
    }

    fn settings(&self) -> (r: SubmitSettings)
        ensures
            r == self.submit_settings(),
    {
        SubmitSettings {
            has_pending_store: self.has_pending_store,
            max_attempts: self.config.default_max_attempts,
        }
    }

    /// Begin to submit a run for streaming.
    pub fn submit(&self, request: RunActivation) -> (r: Submission)
        ensures
            r.inline,
            r.settings == self.submit_settings(),
            match r.step {
                SubmitStep::LoadPending { draft } => is_submittable(request) && is_draft(
                    draft,
                    request,
                    false,
                ) && self.has_pending_store && with_normalized_mode(request, false).trace.run_mode
                    == RunMode::Foreground,
                SubmitStep::Interrupt { draft } => is_submittable(request) && is_draft(
                    draft,
                    request,
                    false,
                ) && !(self.has_pending_store && with_normalized_mode(request, false).trace.run_mode
                    == RunMode::Foreground),
                _ => !is_submittable(request) && r.step == failed(Fault::NoMessages),
            },
    {
        Submission::submit(self.settings(), request)
    }

    /// Begin to submit a run in the background.
    pub fn submit_background(&self, request: RunActivation) -> (r: Submission)
        ensures
            !r.inline,
            r.settings == self.submit_settings(),
            if is_submittable(request) {
                exists|draft: Draft, fresh: RunIds|
                    is_uuid(fresh.run_id@) && is_uuid(fresh.dispatch_id@) && is_draft(
                        draft,
                        request,
                        true,
                    ) && #[trigger] begins_preparing(
                        self.submit_settings(),
                        draft,
                        fresh,
                        r.step,
                    )
            } else {
                r.step == failed(Fault::NoMessages)
            },
    {
        Submission::submit_background(self.settings(), request)
    }

    /// Begin to submit messages to the run under way, if there is one. `local` is
    /// the run of this process on the thread.
    pub fn submit_live_then_queue(
        &self,
        request: RunActivation,
        expected_run_id: Option<String>,
        local: Option<ActiveRun>,
    ) -> (r: LiveThenQueue)
        ensures
            r.settings == self.submit_settings(),
            if is_submittable(request) {
                exists|offered: Vec<Message>, queued: RunActivation, fresh: RunIds|
                    is_uuid(fresh.run_id@) && is_uuid(fresh.dispatch_id@)
                        && #[trigger] begins_live(
                        self.submit_settings(),
                        request,
                        expected_run_id,
                        local,
                        offered,
                        queued,
                        fresh,
                        r.step,
                    )
            } else {
                r.step == (LiveQueueStep::Done { outcome: Err(Fault::NoMessages) })
            },
    {
        LiveThenQueue::submit_live_then_queue(self.settings(), request, expected_run_id, local)
    }

    /// Begin to cancel what an id names, of a dispatch, a run or a thread.
    pub fn cancel(&self, id: String) -> (r: Cancellation)
        ensures
            r == (Cancellation { id, step: CancelStep::StoreCancel }),
    {
        Cancellation::cancel(id)
    }

    /// Begin to interrupt a thread. The caller reads the end without the superseded
    /// dispatches.
    pub fn interrupt(&self, thread_id: String) -> (r: ThreadInterrupt)
        ensures
            r == (ThreadInterrupt { thread_id, step: InterruptStep::Interrupt }),
    {
        self.interrupt_detailed(thread_id)
    }

    /// Begin to interrupt a thread.
    pub fn interrupt_detailed(&self, thread_id: String) -> (r: ThreadInterrupt)
        ensures
            r == (ThreadInterrupt { thread_id, step: InterruptStep::Interrupt }),
    {
        ThreadInterrupt::interrupt_detailed(thread_id)
    }

    /// Begin to deliver a decision on a suspended tool call.
    pub fn send_decision_live(&self, id: String, tool_call_id: String, resume: ToolCallResume) -> (r:
        DecisionDelivery)
        ensures
            r == (DecisionDelivery { id, tool_call_id, resume, step: DecisionStep::SendLocal }),
    {
        DecisionDelivery::send_decision_live(id, tool_call_id, resume)
    }

    /// Begin the recovery at startup: with the leases that have expired.
    pub fn recover(&self) -> (r: RecoverStep)
        ensures
            r == RecoverStep::Reclaim,
    {
        RecoverStep::Reclaim
    }

    /// Decide on the start of the lifecycle, after `tries` tries that were refused.
    pub fn start_lifecycle(&self, tries: usize, found: TransitionTry) -> (r: StartDecision)
        requires
            tries < LIFECYCLE_START_TRIES,
        ensures
            r == start_decision(tries, found),
    {
        start_lifecycle(tries, found)
    }

    /// Begin to start the lifecycle to readiness.
    pub fn start_lifecycle_ready(&self) -> (r: ReadyStep)
        ensures
            r == ReadyStep::CheckRunning,
    {
        ReadyStep::CheckRunning
    }

    /// What is to be done on a tick of maintenance.
    pub fn run_maintenance_loop(&self, tick: MaintenanceTick, has_callback: bool) -> (r:
        MaintenanceWork)
        ensures
            r == (MaintenanceWork {
                sweep: tick == MaintenanceTick::Sweep,
                collect: tick == MaintenanceTick::Collect,
                callback: tick == MaintenanceTick::Collect && has_callback,
            }),
    {
        maintenance_work(tick, has_callback)
    }

    /// What follows a pull of dispatch signals. `pulled` is how many there are.
    pub fn run_dispatch_signal_loop(
        &self,
        pulled: &Result<usize, StorageError>,
        configured_handlers: usize,
    ) -> (r: SignalPull)
        ensures
            match *pulled {
                Err(_) => r == SignalPull::Wait,
                Ok(count) => if count == 0 {
                    r == SignalPull::PullAgain
                } else {
                    r == (SignalPull::Handle {
                        concurrent: if configured_handlers == 0 {
                            1
                        } else if configured_handlers < count {
                            configured_handlers
                        } else {
                            count
                        },
                    })
                },
            },
    {
        match pulled {
            Err(_) => SignalPull::Wait,
            Ok(count) => if *count == 0 {
                SignalPull::PullAgain
            } else {
                SignalPull::Handle {
                    concurrent: concurrent_signal_handlers(configured_handlers, *count),
                }
            },
        }
    }

    /// What is kept for the run under way on a thread, whose event sink can be
    /// reconnected.
    pub fn reconnect_sink<'a, H, C>(&self, workers: &'a WorkerTable<H, C>, thread_id: &str) -> (r:
        Option<&'a H>)
        requires
            workers.wf(),
        ensures
            match r {
                Some(handle) => workers@.dom().contains(thread_id@) && (
                workers@[thread_id@].status matches MailboxWorkerStatus::Running { handle: h, .. }
                    && h == *handle),
                None => !(workers@.dom().contains(thread_id@)
                    && workers@[thread_id@].status is Running),
            },
    {
        workers.reconnect_sink(thread_id)
    }

    /// The dispatches of a thread, as the store listed them.
    pub fn list_dispatches(&self, listed: Result<Vec<RunDispatch>, StorageError>) -> (r: Result<
        Vec<RunDispatch>,
        MailboxError,
    >)
        ensures
            r == reported(listed),
    {
        report(listed)
    }

    /// The threads with queued dispatches, as the store listed them.
    pub fn queued_thread_ids(&self, listed: Result<Vec<String>, StorageError>) -> (r: Result<
        Vec<String>,
        MailboxError,
    >)
        ensures
            r == reported(listed),
    {
        report(listed)
    }

    /// A dispatch, as the store loaded it.
    pub fn load_dispatch(&self, loaded: Result<Option<RunDispatch>, StorageError>) -> (r: Result<
        Option<RunDispatch>,
        MailboxError,
    >)
        ensures
            r == reported(loaded),
    {
        report(loaded)
    }

    /// Whether pending messages can be worked on: there is a store for them.
    pub fn pending_thread_run_store(&self) -> (r: Result<(), Fault>)
        ensures
            match r {
                Ok(_) => self.has_pending_store,
                Err(fault) => !self.has_pending_store && fault == Fault::PendingStoreMissing,
            },
    {
        if self.has_pending_store {
            Ok(())
        } else {
            Err(Fault::PendingStoreMissing)
        }
    }

    /// A pending message as it was edited. Without a pending store there is none.
    pub fn update_pending_message_checked(
        &self,
        edited: Result<PendingMessageRecord, StorageError>,
    ) -> (r: Result<PendingMessageRecord, Fault>)
        ensures
            r == self.if_pending(edited),
    {
        self.on_pending(edited)
    }

    /// A pending message as it was retracted. Without a pending store there is none.
    pub fn retract_pending_message_checked(
        &self,
        retracted: Result<PendingMessageRecord, StorageError>,
    ) -> (r: Result<PendingMessageRecord, Fault>)
        ensures
            r == self.if_pending(retracted),
    {
        self.on_pending(retracted)
    }

    /// The pending messages as they were reordered. Without a pending store there
    /// are none.
    pub fn reorder_pending_messages_checked(
        &self,
        reordered: Result<Vec<PendingMessageRecord>, StorageError>,
    ) -> (r: Result<Vec<PendingMessageRecord>, Fault>)
        ensures
            r == self.if_pending(reordered),
    {
        self.on_pending(reordered)
    }

    /// The messages to be appended as pending, each with an id. Without a pending
    /// store there is nowhere to append them to.
    pub fn deliver(&self, messages: Vec<Message>) -> (r: Result<Vec<Message>, Fault>)
        ensures
            match r {
                Ok(given) => self.has_pending_store && have_ids(given@, messages@),
                Err(fault) => !self.has_pending_store && fault == Fault::PendingStoreMissing,
            },
    {
        match self.pending_thread_run_store() {
            Ok(_) => Ok(normalize_message_ids(messages)),
            Err(fault) => Err(fault),
        }
    }

    /// What a run under way is given to freeze pending messages at its boundaries.
    /// Without a pending store there is nothing to freeze.
    pub fn pending_boundary_handler(
        &self,
        request: &RunActivation,
        run_id: &String,
        resolution_id: String,
    ) -> (r: Option<PendingBoundaryHandler>)
        ensures
            match r {
                Some(handler) => {
                    &&& self.has_pending_store
                    &&& handler.thread_id == request.intent.thread_id
                    &&& handler.run_id == *run_id
                    &&& is_activation_snapshot(
                        handler.snapshot_template,
                        *request,
                        no_input(),
                        resolution_id,
                    )
                },
                None => !self.has_pending_store,
            },
    {
        if self.has_pending_store {
            Some(
                PendingBoundaryHandler {
                    thread_id: request.intent.thread_id.clone(),
                    run_id: run_id.clone(),
                    snapshot_template: run_activation_snapshot(
                        request,
                        empty_input(),
                        resolution_id,
                    ),
                },
            )
        } else {
            None
        }
    }

    /// Under what the runtime events of a dispatch are captured, where they are.
    pub fn wrap_dispatch_runtime_event_sink(
        &self,
        dispatch: &RunDispatch,
        correlation_id: String,
        resumed: bool,
    ) -> (r: Option<RuntimeEventScope>)
        ensures
            r == (match self.runtime_event_capture {
                None => None,
                Some(capture) => Some(
                    RuntimeEventScope {
                        thread_id: dispatch.thread_id,
                        run_id: dispatch.run_id,
                        origin: capture.origin,
                        correlation_id,
                        resumed,
                        mode: capture.mode,
                    },
                ),
            }),
    {
        match &self.runtime_event_capture {
            None => None,
            Some(capture) => Some(
                RuntimeEventScope {
                    thread_id: dispatch.thread_id.clone(),
                    run_id: dispatch.run_id.clone(),
                    origin: capture.origin.clone(),
                    correlation_id,
                    resumed,
                    mode: capture.mode,
                },
            ),
        }
    }

    /// A reply of the pending store as the mailbox reports it: it is refused where
    /// there is no such store.
    pub open spec fn if_pending<T>(self, reply: Result<T, StorageError>) -> Result<T, Fault> {
        if !self.has_pending_store {
            Err(Fault::PendingStoreMissing)
        } else {
            match reply {
                Ok(value) => Ok(value),
                Err(error) => Err(Fault::Store(error)),
            }
        }
    }

    fn on_pending<T>(&self, reply: Result<T, StorageError>) -> (r: Result<T, Fault>)
        ensures
            r == self.if_pending(reply),
    {
        match self.pending_thread_run_store() {
            Ok(_) => match reply {
                Ok(value) => Ok(value),
                Err(error) => Err(Fault::Store(error)),
            },
            Err(fault) => Err(fault),
        }
    }
}

/// Runtime events are captured only with an executor that has both coordinators and from
/// an origin that is valid, and each that is missing is told. Where capture is disabled
/// nothing is needed. All else of the mailbox stays as it is.
pub proof fn lemma_capture_needs_its_coordinators(
    mailbox: Mailbox,
    mode: RuntimeEventDurability,
    origin: String,
    origin_error: Option<String>,
)
    ensures
        ({
            let set = mailbox.capturing(mode, origin, origin_error);
            &&& mode == RuntimeEventDurability::Disabled ==> (set matches Ok(m)
                && m.runtime_event_capture is None)
            &&& mode != RuntimeEventDurability::Disabled
                && !mailbox.executor.has_commit_coordinator ==> set == Err::<Mailbox, Fault>(
                Fault::CommitCoordinatorMissing,
            )
            &&& mode != RuntimeEventDurability::Disabled && mailbox.executor.has_commit_coordinator
                && !mailbox.executor.has_staged_coordinator ==> set == Err::<Mailbox, Fault>(
                Fault::StagedCoordinatorMissing,
            )
            &&& mode != RuntimeEventDurability::Disabled && mailbox.executor.has_commit_coordinator
                && mailbox.executor.has_staged_coordinator && origin_error is Some ==> set == Err::<
                Mailbox,
                Fault,
            >(Fault::OriginInvalid { error: origin_error->0 })
            &&& mode != RuntimeEventDurability::Disabled && mailbox.executor.has_commit_coordinator
                && mailbox.executor.has_staged_coordinator && origin_error is None ==> (
            set matches Ok(m) && (m.runtime_event_capture matches Some(capture) && capture.mode
                == mode && capture.origin == origin))
            &&& set matches Ok(m) ==> m.config == mailbox.config && m.has_pending_store
                == mailbox.has_pending_store && m.has_publisher == mailbox.has_publisher
                && m.consumer_id == mailbox.consumer_id
        }),
{
}

/// A reply of a store reaches the caller as it is, and its error as one of the store; one
/// of the pending store only where there is such a store. A submit uses that store where
/// there is one, and the configured number of attempts.
pub proof fn lemma_replies_of_stores_are_passed_on<T>(
    mailbox: Mailbox,
    reply: Result<T, StorageError>,
)
    ensures
        reply matches Ok(value) ==> reported(reply) == Ok::<T, MailboxError>(value),
        reply matches Err(error) ==> reported(reply) == Err::<T, MailboxError>(
            MailboxError::Store(error),
        ),
        !mailbox.has_pending_store ==> mailbox.if_pending(reply) == Err::<T, Fault>(
            Fault::PendingStoreMissing,
        ),
        mailbox.has_pending_store && reply is Ok ==> mailbox.if_pending(reply) == Ok::<T, Fault>(
            reply->Ok_0,
        ),
        mailbox.has_pending_store && reply is Err ==> mailbox.if_pending(reply) == Err::<T, Fault>(
            Fault::Store(reply->Err_0),
        ),
        mailbox.submit_settings().has_pending_store == mailbox.has_pending_store,
        mailbox.submit_settings().max_attempts == mailbox.config.default_max_attempts,
{
}

/// A mailbox begins without a publisher and without capture, with what it was given; it
/// has a pending store exactly where it was made with one.
pub proof fn lemma_mailbox_begins_as_it_was_made<E: IntoDispatchExecutor>(
    executor: E,
    consumer_id: String,
    config: MailboxConfig,
    plain: Mailbox,
    pending: Mailbox,
)
    requires
        call_ensures(Mailbox::new::<E>, (executor, consumer_id, config), plain),
        call_ensures(
            Mailbox::new_with_pending_thread_run_store::<E>,
            (executor, consumer_id, config),
            pending,
        ),
    ensures
        !plain.has_pending_store,
        pending.has_pending_store,
        plain.config == config && pending.config == config,
        plain.consumer_id == consumer_id && pending.consumer_id == consumer_id,
        plain.executor == pending.executor,
        !plain.has_publisher && !pending.has_publisher,
        plain.runtime_event_capture is None && pending.runtime_event_capture is None,
{
}

/// A mailbox publishes only from an origin that is valid, and from that one; the rest of
/// it stays as it is.
pub proof fn lemma_publisher_needs_a_valid_origin(
    mailbox: Mailbox,
    origin: String,
    origin_error: Option<String>,
    set: Result<Mailbox, Fault>,
)
    requires
        call_ensures(
            Mailbox::with_server_event_publisher,
            (mailbox, origin, origin_error),
            set,
        ),
    ensures
        origin_error matches Some(error) ==> set == Err::<Mailbox, Fault>(
            Fault::OriginInvalid { error },
        ),
        origin_error is None ==> (set matches Ok(m) && m.has_publisher && m.server_event_origin
            == origin && m.config == mailbox.config && m.has_pending_store
            == mailbox.has_pending_store && m.executor == mailbox.executor && m.consumer_id
            == mailbox.consumer_id && m.runtime_event_capture == mailbox.runtime_event_capture),
{
}

/// What the mailbox is asked for begins where it has to: a cancel at the store, an
/// interrupt at the thread, a decision at the thread's own worker, a recovery with what
/// is to be reclaimed, and a start with a look at what runs.
pub proof fn lemma_requests_begin_where_they_have_to(
    mailbox: Mailbox,
    id: String,
    tool_call_id: String,
    resume: ToolCallResume,
    cancellation: Cancellation,
    interrupt: ThreadInterrupt,
    detailed: ThreadInterrupt,
    decision: DecisionDelivery,
    recovery: RecoverStep,
    ready: ReadyStep,
)
    requires
        call_ensures(Mailbox::cancel, (&mailbox, id), cancellation),
        call_ensures(Mailbox::interrupt, (&mailbox, id), interrupt),
        call_ensures(Mailbox::interrupt_detailed, (&mailbox, id), detailed),
        call_ensures(Mailbox::send_decision_live, (&mailbox, id, tool_call_id, resume), decision),
        call_ensures(Mailbox::recover, (&mailbox,), recovery),
        call_ensures(Mailbox::start_lifecycle_ready, (&mailbox,), ready),
    ensures
        cancellation.id == id && cancellation.step is StoreCancel,
        interrupt.thread_id == id && interrupt.step is Interrupt,
        interrupt == detailed,
        decision.id == id && decision.step is SendLocal,
        decision.tool_call_id == tool_call_id && decision.resume == resume,
        recovery is Reclaim,
        ready is CheckRunning,
{
}

/// Events of a dispatch are captured exactly where capture is set, for its thread and run,
/// from the origin and in the mode that were set.
pub proof fn lemma_captured_events_are_of_the_dispatch(
    mailbox: Mailbox,
    dispatch: RunDispatch,
    correlation_id: String,
    resumed: bool,
    scope: Option<RuntimeEventScope>,
)
    requires
        call_ensures(
            Mailbox::wrap_dispatch_runtime_event_sink,
            (&mailbox, &dispatch, correlation_id, resumed),
            scope,
        ),
    ensures
        scope is Some <==> mailbox.runtime_event_capture is Some,
        scope matches Some(s) ==> s.thread_id == dispatch.thread_id && s.run_id == dispatch.run_id
            && s.correlation_id == correlation_id && s.resumed == resumed && s.origin
            == mailbox.runtime_event_capture->0.origin && s.mode
            == mailbox.runtime_event_capture->0.mode,
{
}

} // verus!
