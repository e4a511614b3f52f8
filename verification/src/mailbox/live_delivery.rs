//! Live delivery of messages to a run that is under way, and the lookup of a
//! waiting run that new input may continue.

use vstd::prelude::*;

use crate::delivery::{DeliveryBoundary, DeliveryMode, PendingMessageRecord};
use crate::dispatch::{live_target_for_run, target_of_run, LiveDeliveryOutcome, LiveRunTarget};
use crate::error::{Fault, StorageError};
use crate::mailbox::pending_delivery::{delivery_mode_for_live_run, live_delivery_mode};
use crate::message::Message;
use crate::run::{RunRecord, RunStatus};
use crate::text::same_text;

verus! {

/// Whether a submitted run is under way or waits in the queue.
#[derive(Clone, Copy, Debug, PartialEq, Eq, Structural)]
pub enum MailboxDispatchStatus {
    Running,
    Queued,
}

/// What a submit returns to its caller.
#[derive(Debug, PartialEq)]
pub struct MailboxSubmitResult {
    pub dispatch_id: String,
    pub run_id: String,
    pub thread_id: String,
    pub status: MailboxDispatchStatus,
}

/// A run under way, and the dispatch that it belongs to.
#[derive(Debug, PartialEq)]
pub struct ActiveRun {
    pub dispatch_id: String,
    pub run_id: String,
}

/// The thread that messages are delivered to, and the run that they are meant
/// for, where they are meant for one.
#[derive(Debug, PartialEq)]
pub struct LiveScope {
    pub thread_id: String,
    pub expected_run_id: Option<String>,
    pub has_pending_store: bool,
}

/// The operation that is due in a live delivery.
#[derive(Debug, PartialEq)]
pub enum LiveStep {
    /// Stage the messages as pending for the run of this node's worker.
    StageLocal { active: ActiveRun, messages: Vec<Message>, mode: DeliveryMode },
    /// Tell the local run that there are pending messages.
    WakeLocal { active: ActiveRun, staged: Vec<PendingMessageRecord> },
    /// Send the messages to the local run.
    SendLocal { active: ActiveRun, messages: Vec<Message> },
    /// Load the latest run of the thread: another node may run it.
    LatestRun { messages: Vec<Message> },
    /// Stage the messages as pending for the run of another node.
    StageRemote {
        active: ActiveRun,
        target: LiveRunTarget,
        messages: Vec<Message>,
        mode: DeliveryMode,
    },
    /// Tell the remote run that there are pending messages.
    WakeRemote { active: ActiveRun, target: LiveRunTarget, staged: Vec<PendingMessageRecord> },
    /// Send the messages to the remote run.
    SendRemote { active: ActiveRun, target: LiveRunTarget, messages: Vec<Message> },
    /// Retract the staged messages, which nobody will consume.
    Cleanup { staged: Vec<PendingMessageRecord> },
    /// The delivery is over. Without a result the messages were not delivered.
    Done { outcome: Result<Option<MailboxSubmitResult>, Fault> },
}

/// The reply to the operation of a step.
#[derive(Debug, PartialEq)]
pub enum LiveReply {
    Staged(Result<Vec<PendingMessageRecord>, Fault>),
    Accepted(bool),
    Run(Result<Option<RunRecord>, StorageError>),
    Delivered(Result<LiveDeliveryOutcome, StorageError>),
    Performed,
}

/// Whether a reply is one that the operation of a step gives.
pub open spec fn live_answers(step: LiveStep, reply: LiveReply) -> bool {
    match step {
        LiveStep::StageLocal { .. } | LiveStep::StageRemote { .. } => reply is Staged,
        LiveStep::WakeLocal { .. } | LiveStep::SendLocal { .. } => reply is Accepted,
        LiveStep::LatestRun { .. } => reply is Run,
        LiveStep::WakeRemote { .. } | LiveStep::SendRemote { .. } => reply is Delivered,
        LiveStep::Cleanup { .. } => reply is Performed,
        LiveStep::Done { .. } => false,
    }
}

/// Whether messages that are meant for a run may go to this one.
pub open spec fn is_expected(scope: LiveScope, run_id: String) -> bool {
    match scope.expected_run_id {
        Some(expected) => expected@ == run_id@,
        None => true,
    }
}

/// The messages were not delivered.
pub open spec fn not_delivered() -> LiveStep {
    LiveStep::Done { outcome: Ok(None) }
}

/// The messages were delivered to a run.
pub open spec fn delivered_to(scope: LiveScope, active: ActiveRun) -> LiveStep {
    LiveStep::Done {
        outcome: Ok(
            Some(
                MailboxSubmitResult {
                    dispatch_id: active.dispatch_id,
                    run_id: active.run_id,
                    thread_id: scope.thread_id,
                    status: MailboxDispatchStatus::Running,
                },
            ),
        ),
    }
}

/// A run of the store as a run under way. A run without a dispatch is known by
/// its own id.
pub open spec fn active_of(run: RunRecord) -> ActiveRun {
    ActiveRun {
        dispatch_id: match run.dispatch_id {
            Some(dispatch_id) => dispatch_id,
            None => run.run_id,
        },
        run_id: run.run_id,
    }
}

/// The first step of a live delivery. `local` is the run that this node's worker
/// runs on the thread.
pub open spec fn first_live_step(
    scope: LiveScope,
    messages: Vec<Message>,
    local: Option<ActiveRun>,
) -> LiveStep {
    if messages@.len() == 0 {
        not_delivered()
    } else {
        match local {
            Some(active) => if !is_expected(scope, active.run_id) {
                not_delivered()
            } else if scope.has_pending_store {
                LiveStep::StageLocal {
                    active,
                    messages,
                    mode: live_delivery_mode(DeliveryBoundary::NextStep, active.run_id),
                }
            } else {
                LiveStep::SendLocal { active, messages }
            },
            None => LiveStep::LatestRun { messages },
        }
    }
}

/// The step that a reply leads to.
pub open spec fn next_live_step(scope: LiveScope, step: LiveStep, reply: LiveReply) -> LiveStep {
    match (step, reply) {
        (LiveStep::StageLocal { active, .. }, LiveReply::Staged(result)) => match result {
            Ok(staged) => LiveStep::WakeLocal { active, staged },
            Err(fault) => LiveStep::Done { outcome: Err(fault) },
        },
        (LiveStep::WakeLocal { active, staged }, LiveReply::Accepted(accepted)) => if accepted {
            delivered_to(scope, active)
        } else {
            LiveStep::Cleanup { staged }
        },
        (LiveStep::SendLocal { active, .. }, LiveReply::Accepted(accepted)) => if accepted {
            delivered_to(scope, active)
        } else {
            not_delivered()
        },
        (LiveStep::LatestRun { messages }, LiveReply::Run(result)) => match result {
            Err(error) => LiveStep::Done { outcome: Err(Fault::Store(error)) },
            Ok(None) => not_delivered(),
            Ok(Some(run)) => if run.status != RunStatus::Running || !is_expected(scope, run.run_id) {
                not_delivered()
            } else if scope.has_pending_store {
                LiveStep::StageRemote {
                    active: active_of(run),
                    target: target_of_run(run),
                    messages,
                    mode: live_delivery_mode(DeliveryBoundary::NextStep, run.run_id),
                }
            } else {
                LiveStep::SendRemote {
                    active: active_of(run),
                    target: target_of_run(run),
                    messages,
                }
            },
        },
        (LiveStep::StageRemote { active, target, .. }, LiveReply::Staged(result)) => match result {
            Ok(staged) => LiveStep::WakeRemote { active, target, staged },
            Err(fault) => LiveStep::Done { outcome: Err(fault) },
        },
        (LiveStep::WakeRemote { active, staged, .. }, LiveReply::Delivered(result)) => match result {
            Err(error) => LiveStep::Done { outcome: Err(Fault::Store(error)) },
            Ok(LiveDeliveryOutcome::Delivered) => delivered_to(scope, active),
            Ok(LiveDeliveryOutcome::NoSubscriber) => LiveStep::Cleanup { staged },
        },
        (LiveStep::SendRemote { active, .. }, LiveReply::Delivered(result)) => match result {
            Err(error) => LiveStep::Done { outcome: Err(Fault::Store(error)) },
            Ok(LiveDeliveryOutcome::Delivered) => delivered_to(scope, active),
            Ok(LiveDeliveryOutcome::NoSubscriber) => not_delivered(),
        },
        _ => not_delivered(),
    }
}

/// A live delivery and the operation that is due in it.
#[derive(Debug, PartialEq)]
pub struct LiveDelivery {
    pub scope: LiveScope,
    pub step: LiveStep,
}

fn done(scope: &LiveScope, active: ActiveRun) -> (r: LiveStep)
    ensures
        r == delivered_to(*scope, active),
{
    LiveStep::Done {
        outcome: Ok(
            Some(
                MailboxSubmitResult {
                    dispatch_id: active.dispatch_id,
                    run_id: active.run_id,
                    thread_id: scope.thread_id.clone(),
                    status: MailboxDispatchStatus::Running,
                },
            ),
        ),
    }
}

fn expects_run(scope: &LiveScope, run_id: &String) -> (r: bool)
    ensures
        r == is_expected(*scope, *run_id),
{
    match &scope.expected_run_id {
        Some(expected) => same_text(expected.as_str(), run_id.as_str()),
        None => true,
    }
}

impl LiveDelivery {
    /// Begin to deliver messages to the run of a thread. `local` is the run that
    /// this node's worker runs on it.
    pub fn try_deliver_live_messages(
        scope: LiveScope,
        messages: Vec<Message>,
        local: Option<ActiveRun>,
    ) -> (r: LiveDelivery)
        ensures
            r.scope == scope,
            r.step == first_live_step(scope, messages, local),
    {
        if messages.len() == 0 {
            return LiveDelivery { scope, step: LiveStep::Done { outcome: Ok(None) } };
        }
        let step = match local {
            Some(active) => if !expects_run(&scope, &active.run_id) {
                LiveStep::Done { outcome: Ok(None) }
            } else if scope.has_pending_store {
                let mode = delivery_mode_for_live_run(DeliveryBoundary::NextStep, &active.run_id);
                LiveStep::StageLocal { active, messages, mode }
            } else {
                LiveStep::SendLocal { active, messages }
            },
            None => LiveStep::LatestRun { messages },
        };
        LiveDelivery { scope, step }
    }

    /// Whether a reply is one that the operation of the due step gives.
    pub fn expects(&self, reply: &LiveReply) -> (r: bool)
        ensures
            r == live_answers(self.step, *reply),
    {
        match (&self.step, reply) {
            (LiveStep::StageLocal { .. }, LiveReply::Staged(_)) => true,
            (LiveStep::StageRemote { .. }, LiveReply::Staged(_)) => true,
            (LiveStep::WakeLocal { .. }, LiveReply::Accepted(_)) => true,
            (LiveStep::SendLocal { .. }, LiveReply::Accepted(_)) => true,
            (LiveStep::LatestRun { .. }, LiveReply::Run(_)) => true,
            (LiveStep::WakeRemote { .. }, LiveReply::Delivered(_)) => true,
            (LiveStep::SendRemote { .. }, LiveReply::Delivered(_)) => true,
            (LiveStep::Cleanup { .. }, LiveReply::Performed) => true,
            _ => false,
        }
    }

    /// Take the reply to the operation that was due.
    pub fn advance(self, reply: LiveReply) -> (r: LiveDelivery)
        requires
            live_answers(self.step, reply),
        ensures
            r.scope == self.scope,
            r.step == next_live_step(self.scope, self.step, reply),
    {
        let scope = self.scope;
        let step = match (self.step, reply) {
            (LiveStep::StageLocal { active, messages: _, mode: _ }, LiveReply::Staged(result)) =>
            match result {
                Ok(staged) => LiveStep::WakeLocal { active, staged },
                Err(fault) => LiveStep::Done { outcome: Err(fault) },
            },
            (LiveStep::WakeLocal { active, staged }, LiveReply::Accepted(accepted)) => if accepted {
                done(&scope, active)
            } else {
                LiveStep::Cleanup { staged }
            },
            (LiveStep::SendLocal { active, messages: _ }, LiveReply::Accepted(accepted)) =>
            if accepted {
                done(&scope, active)
            } else {
                LiveStep::Done { outcome: Ok(None) }
            },
            (LiveStep::LatestRun { messages }, LiveReply::Run(result)) => match result {
                Err(error) => LiveStep::Done { outcome: Err(Fault::Store(error)) },
                Ok(None) => LiveStep::Done { outcome: Ok(None) },
                Ok(Some(run)) => {
                    if run.status != RunStatus::Running || !expects_run(&scope, &run.run_id) {
                        LiveStep::Done { outcome: Ok(None) }
                    } else {
                        let target = live_target_for_run(&run);
                        let active = ActiveRun {
                            dispatch_id: match &run.dispatch_id {
                                Some(dispatch_id) => dispatch_id.clone(),
                                None => run.run_id.clone(),
                            },
                            run_id: run.run_id.clone(),
                        };
                        if scope.has_pending_store {
                            let mode = delivery_mode_for_live_run(
                                DeliveryBoundary::NextStep,
                                &run.run_id,
                            );
                            LiveStep::StageRemote { active, target, messages, mode }
                        } else {
                            LiveStep::SendRemote { active, target, messages }
                        }
                    }
                },
            },
            (
                LiveStep::StageRemote { active, target, messages: _, mode: _ },
                LiveReply::Staged(result),
            ) => match result {
                Ok(staged) => LiveStep::WakeRemote { active, target, staged },
                Err(fault) => LiveStep::Done { outcome: Err(fault) },
            },
            (
                LiveStep::WakeRemote { active, target: _, staged },
                LiveReply::Delivered(result),
            ) => match result {
                Err(error) => LiveStep::Done { outcome: Err(Fault::Store(error)) },
                Ok(LiveDeliveryOutcome::Delivered) => done(&scope, active),
                Ok(LiveDeliveryOutcome::NoSubscriber) => LiveStep::Cleanup { staged },
            },
            (
                LiveStep::SendRemote { active, target: _, messages: _ },
                LiveReply::Delivered(result),
            ) => match result {
                Err(error) => LiveStep::Done { outcome: Err(Fault::Store(error)) },
                Ok(LiveDeliveryOutcome::Delivered) => done(&scope, active),
                Ok(LiveDeliveryOutcome::NoSubscriber) => LiveStep::Done { outcome: Ok(None) },
            },
            _ => LiveStep::Done { outcome: Ok(None) },
        };
        LiveDelivery { scope, step }
    }
}

/// A live delivery reports a run only where that run took the messages: the reply
/// before was that they were accepted or delivered, and the run is the expected
/// one. Where it reports none, nothing stays staged: messages that were staged
/// have been retracted first.
pub proof fn lemma_live_result_means_delivery(scope: LiveScope, step: LiveStep, reply: LiveReply)
    requires
        live_answers(step, reply),
    ensures
        match next_live_step(scope, step, reply) {
            LiveStep::Done { outcome: Ok(Some(result)) } => {
                &&& reply == LiveReply::Accepted(true) || reply == LiveReply::Delivered(
                    Ok(LiveDeliveryOutcome::Delivered),
                )
                &&& result.thread_id == scope.thread_id
                &&& result.status == MailboxDispatchStatus::Running
            },
            LiveStep::Done { outcome: Ok(None) } => !(step is WakeLocal || step is WakeRemote)
                && !(step is StageLocal || step is StageRemote),
            LiveStep::StageRemote { active, .. } => is_expected(scope, active.run_id),
            LiveStep::SendRemote { active, .. } => is_expected(scope, active.run_id),
            LiveStep::StageLocal { .. } => false,
            LiveStep::SendLocal { .. } => false,
            _ => true,
        },
{
}

/// Messages that are meant for one run never reach another: whatever a delivery is
/// about to stage for, wake or send to is the expected run.
pub open spec fn heads_for_expected(scope: LiveScope, step: LiveStep) -> bool {
    match step {
        LiveStep::StageLocal { active, .. } => is_expected(scope, active.run_id),
        LiveStep::WakeLocal { active, .. } => is_expected(scope, active.run_id),
        LiveStep::SendLocal { active, .. } => is_expected(scope, active.run_id),
        LiveStep::StageRemote { active, .. } => is_expected(scope, active.run_id),
        LiveStep::WakeRemote { active, .. } => is_expected(scope, active.run_id),
        LiveStep::SendRemote { active, .. } => is_expected(scope, active.run_id),
        LiveStep::Done { outcome: Ok(Some(result)) } => is_expected(scope, result.run_id),
        _ => true,
    }
}

/// From its first step to its last, a live delivery heads for the expected run.
pub proof fn lemma_live_delivery_heads_for_expected(
    scope: LiveScope,
    messages: Vec<Message>,
    local: Option<ActiveRun>,
    step: LiveStep,
    reply: LiveReply,
)
    ensures
        heads_for_expected(scope, first_live_step(scope, messages, local)),
        live_answers(step, reply) && heads_for_expected(scope, step) ==> heads_for_expected(
            scope,
            next_live_step(scope, step, reply),
        ),
{
}

/// The operation that is due in the lookup of a waiting run.
#[derive(Debug, PartialEq)]
pub enum WaitingStep {
    /// Load the thread, for its open run.
    LoadThread,
    /// Load the thread's open run.
    LoadOpenRun { open_run_id: String },
    /// Load the latest run of the thread.
    LatestRun,
    /// The lookup is over.
    Done { outcome: Result<Option<String>, Fault> },
}

/// The reply to the operation of a step. A thread is answered by its open run.
#[derive(Debug, PartialEq)]
pub enum WaitingReply {
    Thread(Result<Option<Option<String>>, StorageError>),
    Run(Result<Option<RunRecord>, StorageError>),
}

/// Whether a reply is one that the operation of a step gives.
pub open spec fn waiting_answers(step: WaitingStep, reply: WaitingReply) -> bool {
    match step {
        WaitingStep::LoadThread => reply is Thread,
        WaitingStep::LoadOpenRun { .. } => reply is Run,
        WaitingStep::LatestRun => reply is Run,
        WaitingStep::Done { .. } => false,
    }
}

/// The step that a reply leads to. The open run that the thread names comes before
/// its latest one.
pub open spec fn next_waiting_step(
    thread_id: String,
    step: WaitingStep,
    reply: WaitingReply,
) -> WaitingStep {
    match (step, reply) {
        (WaitingStep::LoadThread, WaitingReply::Thread(result)) => match result {
            Err(error) => WaitingStep::Done { outcome: Err(Fault::Store(error)) },
            Ok(Some(Some(open_run_id))) => WaitingStep::LoadOpenRun { open_run_id },
            _ => WaitingStep::LatestRun,
        },
        (WaitingStep::LoadOpenRun { .. }, WaitingReply::Run(result)) => match result {
            Err(error) => WaitingStep::Done { outcome: Err(Fault::Store(error)) },
            Ok(Some(run)) => if run.thread_id@ == thread_id@ && run.resumable() {
                WaitingStep::Done { outcome: Ok(Some(run.run_id)) }
            } else {
                WaitingStep::LatestRun
            },
            Ok(None) => WaitingStep::LatestRun,
        },
        (WaitingStep::LatestRun, WaitingReply::Run(result)) => match result {
            Err(error) => WaitingStep::Done { outcome: Err(Fault::Store(error)) },
            Ok(Some(run)) => WaitingStep::Done {
                outcome: Ok(
                    if run.resumable() {
                        Some(run.run_id)
                    } else {
                        None
                    },
                ),
            },
            Ok(None) => WaitingStep::Done { outcome: Ok(None) },
        },
        _ => step,
    }
}

/// The lookup of a waiting run of a thread that new input may continue.
#[derive(Debug, PartialEq)]
pub struct WaitingLookup {
    pub thread_id: String,
    pub step: WaitingStep,
}

impl WaitingLookup {
    /// Begin the lookup.
    pub fn reusable_waiting_run_id(thread_id: String) -> (r: WaitingLookup)
        ensures
            r == (WaitingLookup { thread_id, step: WaitingStep::LoadThread }),
    {
        WaitingLookup { thread_id, step: WaitingStep::LoadThread }
    }

    /// Whether a reply is one that the operation of the due step gives.
    pub fn expects(&self, reply: &WaitingReply) -> (r: bool)
        ensures
            r == waiting_answers(self.step, *reply),
    {
        match (&self.step, reply) {
            (WaitingStep::LoadThread, WaitingReply::Thread(_)) => true,
            (WaitingStep::LoadOpenRun { .. }, WaitingReply::Run(_)) => true,
            (WaitingStep::LatestRun, WaitingReply::Run(_)) => true,
            _ => false,
        }
    }

    /// Take the reply to the operation that was due.
    pub fn advance(self, reply: WaitingReply) -> (r: WaitingLookup)
        requires
            waiting_answers(self.step, reply),
        ensures
            r.thread_id == self.thread_id,
            r.step == next_waiting_step(self.thread_id, self.step, reply),
    {
        let thread_id = self.thread_id;
        let step = match (self.step, reply) {
            (WaitingStep::LoadThread, WaitingReply::Thread(result)) => match result {
                Err(error) => WaitingStep::Done { outcome: Err(Fault::Store(error)) },
                Ok(Some(Some(open_run_id))) => WaitingStep::LoadOpenRun { open_run_id },
                _ => WaitingStep::LatestRun,
            },
            (WaitingStep::LoadOpenRun { open_run_id: _ }, WaitingReply::Run(result)) =>
            match result {
                Err(error) => WaitingStep::Done { outcome: Err(Fault::Store(error)) },
                Ok(Some(run)) => if same_text(run.thread_id.as_str(), thread_id.as_str())
                    && run.is_resumable_waiting() {
                    WaitingStep::Done { outcome: Ok(Some(run.run_id)) }
                } else {
                    WaitingStep::LatestRun
                },
                Ok(None) => WaitingStep::LatestRun,
            },
            (WaitingStep::LatestRun, WaitingReply::Run(result)) => match result {
                Err(error) => WaitingStep::Done { outcome: Err(Fault::Store(error)) },
                Ok(Some(run)) => if run.is_resumable_waiting() {
                    WaitingStep::Done { outcome: Ok(Some(run.run_id)) }
                } else {
                    WaitingStep::Done { outcome: Ok(None) }
                },
                Ok(None) => WaitingStep::Done { outcome: Ok(None) },
            },
            (step, _) => step,
        };
        WaitingLookup { thread_id, step }
    }
}

/// Only a run that waits for input and may be continued is ever reused.
pub proof fn lemma_reused_run_is_resumable(
    thread_id: String,
    step: WaitingStep,
    reply: WaitingReply,
)
    requires
        waiting_answers(step, reply),
    ensures
        next_waiting_step(thread_id, step, reply) matches WaitingStep::Done {
            outcome: Ok(Some(run_id)),
        } ==> reply matches WaitingReply::Run(Ok(Some(run))) && run.resumable() && run.run_id
            == run_id,
{
}

} // verus!
