//! What a run under way does with pending messages at its boundaries: it stages
//! input for itself, and freezes what is due.

use vstd::prelude::*;

use crate::delivery::{boundary_name, name_of_boundary, DeliveryBoundary, DeliveryMode};
use crate::error::{Fault, StorageError};
use crate::mailbox::helpers::{have_ids, normalize_message_ids};
use crate::mailbox::pending_delivery::{delivery_mode_for_live_run, live_delivery_mode};
use crate::mailbox::pending_freeze::{
    freeze_answers, freeze_follows, FreezeReply, FreezeScope, FreezeStep, PendingFreeze,
};
use crate::mailbox::reconstruct::{messages_of, unwrap_records};
use crate::message::Message;
use crate::run::{RunActivationSnapshot, RunRecord};
use crate::runtime::AgentLoopError;
use crate::text::join4;

verus! {

/// What a run under way keeps to freeze pending messages: who it is, and the snapshot
/// that the input of a freeze goes into.
#[derive(Debug, PartialEq)]
pub struct PendingBoundaryHandler {
    pub thread_id: String,
    pub run_id: String,
    pub snapshot_template: RunActivationSnapshot,
}

/// Messages that a run stages for itself, and how.
#[derive(Debug, PartialEq)]
pub struct Staging {
    pub messages: Vec<Message>,
    pub mode: DeliveryMode,
}

/// The staging of messages for a boundary of a run: for that run alone, each
/// message with an id. There is none where there are no messages.
pub fn stage_pending_messages(
    run_id: &String,
    boundary: DeliveryBoundary,
    messages: Vec<Message>,
) -> (r: Option<Staging>)
    ensures
        match r {
            Some(staging) => {
                &&& messages@.len() > 0
                &&& staging.mode == live_delivery_mode(boundary, *run_id)
                &&& have_ids(staging.messages@, messages@)
            },
            None => messages@.len() == 0,
        },
{
    if messages.len() == 0 {
        return None;
    }
    Some(
        Staging {
            messages: normalize_message_ids(messages),
            mode: delivery_mode_for_live_run(boundary, run_id),
        },
    )
}

/// Why a boundary of a run could not be frozen.
#[derive(Debug, PartialEq)]
pub enum BoundaryFault {
    LoadRun(StorageError),
    RunMissing { run_id: String, boundary: DeliveryBoundary },
    Freeze(Fault),
}

impl BoundaryFault {
    /// Whether `error` is how the run sees this fault: a failure of the storage.
    pub open spec fn reported_as(self, error: AgentLoopError) -> bool {
        error matches AgentLoopError::StorageError(text) && match self {
            BoundaryFault::LoadRun(cause) => text@ == cause.text(),
            BoundaryFault::RunMissing { run_id, boundary } => text@ == "run '"@ + run_id@
                + "' not found while freezing pending "@ + name_of_boundary(boundary)@,
            BoundaryFault::Freeze(fault) => exists|reported: crate::error::MailboxError| #[trigger]
                fault.reported_as(reported) && text@ == reported.text(),
        }
    }

    /// The error that the run sees.
    pub fn to_loop_error(self) -> (r: AgentLoopError)
        ensures
            self.reported_as(r),
    {
        match self {
            BoundaryFault::LoadRun(cause) => AgentLoopError::StorageError(cause.to_text()),
            BoundaryFault::RunMissing { run_id, boundary } => AgentLoopError::StorageError(
                join4(
                    "run '",
                    run_id.as_str(),
                    "' not found while freezing pending ",
                    boundary_name(boundary),
                ),
            ),
            BoundaryFault::Freeze(fault) => {
                let reported = fault.to_error();
                let text = reported.to_text();
                assert(fault.reported_as(reported));
                AgentLoopError::StorageError(text)
            },
        }
    }
}

/// The operation that is due in the freeze of a boundary.
#[derive(Debug, PartialEq)]
pub enum BoundaryStep {
    /// Load the record of the run.
    LoadRun { template: RunActivationSnapshot },
    /// Freeze what is due.
    Freeze { freeze: PendingFreeze },
    /// The freeze is over: the messages that the run takes in, if any.
    Done { outcome: Result<Option<Vec<Message>>, BoundaryFault> },
}

/// The reply to the operation of a step.
#[derive(Debug, PartialEq)]
pub enum BoundaryReply {
    Run(Result<Option<RunRecord>, StorageError>),
    Freezing(FreezeReply),
}

/// The freeze of a boundary of a run under way.
#[derive(Debug, PartialEq)]
pub struct BoundaryFreeze {
    pub thread_id: String,
    pub run_id: String,
    pub boundary: DeliveryBoundary,
    pub step: BoundaryStep,
}

/// Whether a reply is one that the operation of a step gives.
pub open spec fn boundary_answers(step: BoundaryStep, reply: BoundaryReply) -> bool {
    match step {
        BoundaryStep::LoadRun { .. } => reply is Run,
        BoundaryStep::Freeze { freeze } => reply matches BoundaryReply::Freezing(inner)
            && freeze_answers(freeze.scope, freeze.step, inner),
        BoundaryStep::Done { .. } => false,
    }
}

/// Whether `after` is the step at a state of the freeze.
pub open spec fn is_at_freeze(freeze: PendingFreeze, after: BoundaryStep) -> bool {
    match freeze.step {
        FreezeStep::Done { outcome, .. } => match outcome {
            Ok(Some(frozen)) => after matches BoundaryStep::Done { outcome: Ok(Some(messages)) }
                && messages@ == messages_of(frozen@),
            Ok(None) => after == (BoundaryStep::Done { outcome: Ok(None) }),
            Err(fault) => after == (BoundaryStep::Done {
                outcome: Err(BoundaryFault::Freeze(fault)),
            }),
        },
        _ => after == (BoundaryStep::Freeze { freeze }),
    }
}

/// Whether `after` is a step that a reply may lead to.
pub open spec fn boundary_follows(
    before: BoundaryFreeze,
    reply: BoundaryReply,
    after: BoundaryStep,
) -> bool {
    match (before.step, reply) {
        (BoundaryStep::LoadRun { template }, BoundaryReply::Run(result)) => match result {
            Err(error) => after == (BoundaryStep::Done {
                outcome: Err(BoundaryFault::LoadRun(error)),
            }),
            Ok(None) => after == (BoundaryStep::Done {
                outcome: Err(
                    BoundaryFault::RunMissing { run_id: before.run_id, boundary: before.boundary },
                ),
            }),
            Ok(Some(record)) => after == (BoundaryStep::Freeze {
                freeze: PendingFreeze {
                    scope: FreezeScope {
                        thread_id: before.thread_id,
                        run_id: before.run_id,
                        boundary: before.boundary,
                        append: None,
                    },
                    step: FreezeStep::LoadCommitted { attempts: 0, record, template },
                },
            }),
        },
        (BoundaryStep::Freeze { freeze }, BoundaryReply::Freezing(inner)) => exists|
            next: FreezeStep,
        | #[trigger]
            freeze_follows(freeze.scope, freeze.step, inner, next) && is_at_freeze(
                PendingFreeze { scope: freeze.scope, step: next },
                after,
            ),
        _ => false,
    }
}

fn freeze_step(freeze: PendingFreeze) -> (r: BoundaryStep)
    ensures
        is_at_freeze(freeze, r),
{
    match freeze.step {
        FreezeStep::Done { outcome, .. } => match outcome {
            Ok(Some(frozen)) => BoundaryStep::Done { outcome: Ok(Some(unwrap_records(frozen))) },
            Ok(None) => BoundaryStep::Done { outcome: Ok(None) },
            Err(fault) => BoundaryStep::Done { outcome: Err(BoundaryFault::Freeze(fault)) },
        },
        step => BoundaryStep::Freeze { freeze: PendingFreeze { scope: freeze.scope, step } },
    }
}

impl BoundaryFreeze {
    /// Begin to freeze a boundary of a run. `template` is the snapshot of the
    /// request that the run was started with.
    pub fn freeze_pending_boundary(
        thread_id: String,
        run_id: String,
        boundary: DeliveryBoundary,
        template: RunActivationSnapshot,
    ) -> (r: BoundaryFreeze)
        ensures
            r == (BoundaryFreeze {
                thread_id,
                run_id,
                boundary,
                step: BoundaryStep::LoadRun { template },
            }),
    {
        BoundaryFreeze { thread_id, run_id, boundary, step: BoundaryStep::LoadRun { template } }
    }

    /// Whether a reply is one that the operation of the due step gives.
    pub fn expects(&self, reply: &BoundaryReply) -> (r: bool)
        ensures
            r == boundary_answers(self.step, *reply),
    {
        match (&self.step, reply) {
            (BoundaryStep::LoadRun { .. }, BoundaryReply::Run(_)) => true,
            (BoundaryStep::Freeze { freeze }, BoundaryReply::Freezing(inner)) => freeze.expects(
                inner,
            ),
            _ => false,
        }
    }

    /// Take the reply to the operation that was due.
    pub fn advance(self, reply: BoundaryReply) -> (r: BoundaryFreeze)
        requires
            boundary_answers(self.step, reply),
        ensures
            r.thread_id == self.thread_id,
            r.run_id == self.run_id,
            r.boundary == self.boundary,
            boundary_follows(self, reply, r.step),
    {
        let thread_id = self.thread_id;
        let run_id = self.run_id;
        let boundary = self.boundary;
        let step = match (self.step, reply) {
            (BoundaryStep::LoadRun { template }, BoundaryReply::Run(result)) => match result {
                Err(error) => BoundaryStep::Done { outcome: Err(BoundaryFault::LoadRun(error)) },
                Ok(None) => BoundaryStep::Done {
                    outcome: Err(BoundaryFault::RunMissing { run_id: run_id.clone(), boundary }),
                },
                Ok(Some(record)) => {
                    let scope = FreezeScope {
                        thread_id: thread_id.clone(),
                        run_id: run_id.clone(),
                        boundary,
                        append: None,
                    };
                    BoundaryStep::Freeze {
                        freeze: PendingFreeze::prepare_pending_boundary_snapshot_for_run(
                            true,
                            scope,
                            template,
                            record,
                        ),
                    }
                },
            },
            (BoundaryStep::Freeze { freeze }, BoundaryReply::Freezing(inner)) => {
                let next = freeze.advance(inner);
                assert(freeze_follows(freeze.scope, freeze.step, inner, next.step));
                freeze_step(next)
            },
            (step, _) => step,
        };
        BoundaryFreeze { thread_id, run_id, boundary, step }
    }
}

/// A run that freezes a boundary is given the messages that were frozen, each as it was
/// stored and in order, or none where nothing was due. It freezes what is pending and
/// appends nothing. A run whose record is gone or cannot be loaded is told so.
pub proof fn lemma_boundary_gives_the_frozen_messages(
    before: BoundaryFreeze,
    reply: BoundaryReply,
    after: BoundaryStep,
)
    requires
        boundary_answers(before.step, reply),
        boundary_follows(before, reply, after),
    ensures
        before.step matches BoundaryStep::LoadRun { template } ==> match reply {
            BoundaryReply::Run(Err(error)) => after == (BoundaryStep::Done {
                outcome: Err(BoundaryFault::LoadRun(error)),
            }),
            BoundaryReply::Run(Ok(None)) => after == (BoundaryStep::Done {
                outcome: Err(
                    BoundaryFault::RunMissing { run_id: before.run_id, boundary: before.boundary },
                ),
            }),
            BoundaryReply::Run(Ok(Some(record))) => after matches BoundaryStep::Freeze { freeze }
                && freeze.scope.thread_id == before.thread_id && freeze.scope.run_id
                == before.run_id && freeze.scope.boundary == before.boundary && freeze.scope.append
                is None && freeze.step == (FreezeStep::LoadCommitted {
                attempts: 0,
                record,
                template,
            }),
            _ => false,
        },
        before.step matches BoundaryStep::Freeze { freeze } ==> (
        reply matches BoundaryReply::Freezing(inner) && (after matches BoundaryStep::Done { outcome }
            ==> exists|next: FreezeStep| #[trigger]
            freeze_follows(freeze.scope, freeze.step, inner, next) && (next matches FreezeStep::Done {
                outcome: frozen,
                ..
            } && match frozen {
                Ok(Some(records)) => outcome matches Ok(Some(messages)) && messages@.len()
                    == records@.len() && forall|k: int|
                    0 <= k < records@.len() ==> #[trigger] messages@[k] == records@[k].message,
                Ok(None) => outcome == Ok::<Option<Vec<Message>>, BoundaryFault>(None),
                Err(fault) => outcome == Err::<Option<Vec<Message>>, BoundaryFault>(
                    BoundaryFault::Freeze(fault),
                ),
            }))),
        after matches BoundaryStep::Freeze { freeze } ==> !(freeze.step is Done),
{
    if let BoundaryStep::Freeze { freeze } = before.step {
        let inner = reply->Freezing_0;
        let next = choose|next: FreezeStep| #[trigger]
            freeze_follows(freeze.scope, freeze.step, inner, next) && is_at_freeze(
                PendingFreeze { scope: freeze.scope, step: next },
                after,
            );
        assert(freeze_follows(freeze.scope, freeze.step, inner, next));
    }
}

/// A freeze of a boundary begins with the record of the run, for the thread, the run and
/// the boundary that it was asked for.
pub proof fn lemma_boundary_begins_with_the_record(
    thread_id: String,
    run_id: String,
    boundary: DeliveryBoundary,
    template: RunActivationSnapshot,
    begun: BoundaryFreeze,
)
    requires
        call_ensures(
            BoundaryFreeze::freeze_pending_boundary,
            (thread_id, run_id, boundary, template),
            begun,
        ),
    ensures
        begun.thread_id == thread_id,
        begun.run_id == run_id,
        begun.boundary == boundary,
        begun.step == (BoundaryStep::LoadRun { template }),
{
}

} // verus!
