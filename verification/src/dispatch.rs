//! Dispatches: the queue entries by which runs are handed to workers.

use vstd::prelude::*;

use crate::message::{copy_text, Message};
use crate::activation::SeededDecision;
use crate::run::{RunRecord, RunStatus, TerminationReason};

verus! {

/// The status of a dispatch.
#[derive(Clone, Copy, Debug, PartialEq, Eq, Structural)]
pub enum RunDispatchStatus {
    Queued,
    Claimed,
    Acked,
    Cancelled,
    Superseded,
    DeadLetter,
}

/// The priority of a dispatch that was given none.
pub const DEFAULT_PRIORITY: u8 = 128;

/// A queue entry for one run of a thread. Times are in milliseconds.
#[derive(Debug, PartialEq)]
pub struct RunDispatch {
    pub dispatch_id: String,
    pub thread_id: String,
    pub run_id: String,
    pub dispatch_epoch: u64,
    pub status: RunDispatchStatus,
    pub priority: u8,
    pub available_at: u64,
    pub attempt_count: u32,
    pub max_attempts: u32,
    pub last_error: Option<String>,
    pub claim_token: Option<String>,
    pub claimed_by: Option<String>,
    pub lease_until: Option<u64>,
    pub dispatch_instance_id: Option<String>,
    pub run_status: Option<RunStatus>,
    pub termination: Option<TerminationReason>,
    pub run_response: Option<String>,
    pub run_error: Option<String>,
    pub completed_at: Option<u64>,
    pub created_at: u64,
    pub updated_at: u64,
}

impl Clone for RunDispatch {
    fn clone(&self) -> (r: Self)
        ensures
            r == *self,
    {
        RunDispatch {
            dispatch_id: self.dispatch_id.clone(),
            thread_id: self.thread_id.clone(),
            run_id: self.run_id.clone(),
            dispatch_epoch: self.dispatch_epoch,
            status: self.status,
            priority: self.priority,
            available_at: self.available_at,
            attempt_count: self.attempt_count,
            max_attempts: self.max_attempts,
            last_error: copy_text(&self.last_error),
            claim_token: copy_text(&self.claim_token),
            claimed_by: copy_text(&self.claimed_by),
            lease_until: self.lease_until,
            dispatch_instance_id: copy_text(&self.dispatch_instance_id),
            run_status: self.run_status,
            termination: match &self.termination {
                Some(t) => Some(t.clone()),
                None => None,
            },
            run_response: copy_text(&self.run_response),
            run_error: copy_text(&self.run_error),
            completed_at: self.completed_at,
            created_at: self.created_at,
            updated_at: self.updated_at,
        }
    }
}

impl RunDispatch {
    /// A dispatch as it is first queued: never attempted, claimed by nobody,
    /// available and created at `now`.
    pub open spec fn fresh(
        dispatch_id: String,
        thread_id: String,
        run_id: String,
        now: u64,
        max_attempts: u32,
    ) -> RunDispatch {
        RunDispatch {
            dispatch_id,
            thread_id,
            run_id,
            dispatch_epoch: 0,
            status: RunDispatchStatus::Queued,
            priority: DEFAULT_PRIORITY,
            available_at: now,
            attempt_count: 0,
            max_attempts,
            last_error: None,
            claim_token: None,
            claimed_by: None,
            lease_until: None,
            dispatch_instance_id: None,
            run_status: None,
            termination: None,
            run_response: None,
            run_error: None,
            completed_at: None,
            created_at: now,
            updated_at: now,
        }
    }

    /// A dispatch as it is first queued.
    pub fn queued(
        dispatch_id: String,
        thread_id: String,
        run_id: String,
        now: u64,
        max_attempts: u32,
    ) -> (r: RunDispatch)
        ensures
            r == RunDispatch::fresh(dispatch_id, thread_id, run_id, now, max_attempts),
    {
        RunDispatch {
            dispatch_id,
            thread_id,
            run_id,
            dispatch_epoch: 0,
            status: RunDispatchStatus::Queued,
            priority: DEFAULT_PRIORITY,
            available_at: now,
            attempt_count: 0,
            max_attempts,
            last_error: None,
            claim_token: None,
            claimed_by: None,
            lease_until: None,
            dispatch_instance_id: None,
            run_status: None,
            termination: None,
            run_response: None,
            run_error: None,
            completed_at: None,
            created_at: now,
            updated_at: now,
        }
    }
}

/// The label of a dispatch status in events and metrics.
pub open spec fn status_label(status: RunDispatchStatus) -> &'static str {
    match status {
        RunDispatchStatus::Queued => "queued",
        RunDispatchStatus::Claimed => "claimed",
        RunDispatchStatus::Acked => "acked",
        RunDispatchStatus::Cancelled => "cancelled",
        RunDispatchStatus::Superseded => "superseded",
        RunDispatchStatus::DeadLetter => "dead_letter",
    }
}

/// The label of a dispatch status in events and metrics.
pub fn dispatch_status_label(status: RunDispatchStatus) -> (r: &'static str)
    ensures
        r == status_label(status),
{
    match status {
        RunDispatchStatus::Queued => "queued",
        RunDispatchStatus::Claimed => "claimed",
        RunDispatchStatus::Acked => "acked",
        RunDispatchStatus::Cancelled => "cancelled",
        RunDispatchStatus::Superseded => "superseded",
        RunDispatchStatus::DeadLetter => "dead_letter",
    }
}

/// The run that a live command is addressed to.
#[derive(Debug, PartialEq)]
pub struct LiveRunTarget {
    pub thread_id: String,
    pub run_id: String,
    pub dispatch_id: Option<String>,
}

/// The target of a live command to the run of a dispatch.
pub open spec fn target_of_dispatch(dispatch: RunDispatch) -> LiveRunTarget {
    LiveRunTarget {
        thread_id: dispatch.thread_id,
        run_id: dispatch.run_id,
        dispatch_id: Some(dispatch.dispatch_id),
    }
}

/// The target of a live command to a run.
pub open spec fn target_of_run(run: RunRecord) -> LiveRunTarget {
    LiveRunTarget { thread_id: run.thread_id, run_id: run.run_id, dispatch_id: run.dispatch_id }
}

/// The target of a live command to the run of a dispatch.
pub fn live_target_for_dispatch(dispatch: &RunDispatch) -> (r: LiveRunTarget)
    ensures
        r == target_of_dispatch(*dispatch),
{
    LiveRunTarget {
        thread_id: dispatch.thread_id.clone(),
        run_id: dispatch.run_id.clone(),
        dispatch_id: Some(dispatch.dispatch_id.clone()),
    }
}

/// The target of a live command to a run.
pub fn live_target_for_run(run: &RunRecord) -> (r: LiveRunTarget)
    ensures
        r == target_of_run(*run),
{
    LiveRunTarget {
        thread_id: run.thread_id.clone(),
        run_id: run.run_id.clone(),
        dispatch_id: copy_text(&run.dispatch_id),
    }
}

/// A command to a run that is under way.
#[derive(Debug, PartialEq)]
pub enum LiveRunCommand {
    Cancel,
    Decision(Vec<SeededDecision>),
    Messages(Vec<Message>),
    PendingBoundaryWake,
}

/// Whether a live command reached a subscriber.
#[derive(Clone, Copy, Debug, PartialEq, Eq, Structural)]
pub enum LiveDeliveryOutcome {
    Delivered,
    NoSubscriber,
}

/// What the store did when a thread was interrupted.
#[derive(Debug, PartialEq)]
pub struct MailboxInterruptDetails {
    pub new_dispatch_epoch: u64,
    pub active_dispatch: Option<RunDispatch>,
    pub superseded_count: usize,
    pub superseded_dispatches: Vec<RunDispatch>,
}

/// What the store did when a thread was interrupted, without the dispatches.
#[derive(Debug, PartialEq)]
pub struct MailboxInterrupt {
    pub new_dispatch_epoch: u64,
    pub active_dispatch: Option<RunDispatch>,
    pub superseded_count: usize,
}

impl MailboxInterruptDetails {
    /// The same without the superseded dispatches.
    pub fn summary(self) -> (r: MailboxInterrupt)
        ensures
            r == (MailboxInterrupt {
                new_dispatch_epoch: self.new_dispatch_epoch,
                active_dispatch: self.active_dispatch,
                superseded_count: self.superseded_count,
            }),
    {
        MailboxInterrupt {
            new_dispatch_epoch: self.new_dispatch_epoch,
            active_dispatch: self.active_dispatch,
            superseded_count: self.superseded_count,
        }
    }
}

/// The labels of different statuses differ, and each is the name of its status.
pub proof fn lemma_labels_tell_statuses_apart(status: RunDispatchStatus, other: RunDispatchStatus)
    ensures
        status_label(status)@ == (match status {
            RunDispatchStatus::Queued => "queued"@,
            RunDispatchStatus::Claimed => "claimed"@,
            RunDispatchStatus::Acked => "acked"@,
            RunDispatchStatus::Cancelled => "cancelled"@,
            RunDispatchStatus::Superseded => "superseded"@,
            RunDispatchStatus::DeadLetter => "dead_letter"@,
        }),
        status_label(status)@ == status_label(other)@ ==> status == other,
{
    reveal_strlit("queued");
    reveal_strlit("claimed");
    reveal_strlit("acked");
    reveal_strlit("cancelled");
    reveal_strlit("superseded");
    reveal_strlit("dead_letter");
    assert("queued"@.len() == 6);
    assert("claimed"@.len() == 7);
    assert("acked"@.len() == 5);
    assert("cancelled"@.len() == 9);
    assert("superseded"@.len() == 10);
    assert("dead_letter"@.len() == 11);
}

/// A dispatch that was just queued is open to any worker from then on: nobody has claimed
/// or tried it, and nothing is known of its run.
pub proof fn lemma_fresh_dispatch_is_open(
    dispatch_id: String,
    thread_id: String,
    run_id: String,
    now: u64,
    max_attempts: u32,
)
    ensures
        ({
            let dispatch = RunDispatch::fresh(dispatch_id, thread_id, run_id, now, max_attempts);
            &&& dispatch.dispatch_id == dispatch_id
            &&& dispatch.thread_id == thread_id
            &&& dispatch.run_id == run_id
            &&& dispatch.status == RunDispatchStatus::Queued
            &&& dispatch.available_at == now
            &&& dispatch.created_at == now
            &&& dispatch.updated_at == now
            &&& dispatch.max_attempts == max_attempts
            &&& dispatch.attempt_count == 0
            &&& dispatch.dispatch_epoch == 0
            &&& dispatch.priority == 128
            &&& dispatch.claim_token is None
            &&& dispatch.claimed_by is None
            &&& dispatch.lease_until is None
            &&& dispatch.dispatch_instance_id is None
            &&& dispatch.run_status is None
            &&& dispatch.termination is None
            &&& dispatch.run_response is None
            &&& dispatch.run_error is None
            &&& dispatch.last_error is None
            &&& dispatch.completed_at is None
        }),
{
}

/// A command to the run of a dispatch is addressed to that dispatch, and one to a run to
/// the dispatch that the run names, if any.
pub proof fn lemma_targets_name_the_run(dispatch: RunDispatch, run: RunRecord)
    ensures
        target_of_dispatch(dispatch).thread_id == dispatch.thread_id,
        target_of_dispatch(dispatch).run_id == dispatch.run_id,
        target_of_dispatch(dispatch).dispatch_id == Some(dispatch.dispatch_id),
        target_of_run(run).thread_id == run.thread_id,
        target_of_run(run).run_id == run.run_id,
        target_of_run(run).dispatch_id == run.dispatch_id,
{
}

/// The summary of an interrupt says what the details say: the epoch, the dispatch that was
/// active, and how many were superseded.
pub proof fn lemma_summary_says_what_the_details_say(
    details: MailboxInterruptDetails,
    summary: MailboxInterrupt,
)
    requires
        call_ensures(MailboxInterruptDetails::summary, (details,), summary),
    ensures
        summary.new_dispatch_epoch == details.new_dispatch_epoch,
        summary.active_dispatch == details.active_dispatch,
        summary.superseded_count == details.superseded_count,
{
}

} // verus!
