//! What a submit comes to: the course from the request to the outcome, by what the
//! store, the worker and the run under way replied.

use vstd::prelude::*;

use crate::activation::{RunActivation, RunMode, RunOrigin};
use crate::delivery::DeliveryBoundary;
use crate::dispatch::{LiveDeliveryOutcome, RunDispatch, RunDispatchStatus};
use crate::error::Fault;
use crate::ids::is_uuid;
use crate::mailbox::cancel::{ActiveStep, AftermathStep, TerminalKind};
use crate::mailbox::live_delivery::{
    first_live_step, live_answers, next_live_step, next_waiting_step, waiting_answers, ActiveRun,
    LiveReply, LiveScope, LiveStep, MailboxDispatchStatus, MailboxSubmitResult, WaitingReply,
    WaitingStep,
};
use crate::mailbox::prepare_run::{PrepareStep, RunIds, RunPreparation};
use crate::mailbox::submit::{
    follows_preparation, is_draft, is_fallback, is_submission, is_submittable, live_queue_answers,
    live_queue_follows, submit_answers, submit_follows, Draft, LiveQueueReply, LiveQueueStep,
    SubmitReply, SubmitSettings, SubmitStep,
};
use crate::message::{Message, Role};
use crate::run::{RunRecord, RunStatus};
use crate::text::{is_blank, trim};

verus! {

proof fn lemma_submit_goes_on(
    inline: bool,
    settings: SubmitSettings,
    steps: Seq<SubmitStep>,
    replies: Seq<SubmitReply>,
    fresh: Seq<RunIds>,
    i: int,
)
    requires
        is_submission(inline, settings, steps, replies, fresh),
        0 <= i < steps.len(),
    ensures
        i < replies.len() ==> submit_answers(steps[i], replies[i]) && submit_follows(
            inline,
            settings,
            steps[i],
            replies[i],
            fresh[i],
            steps[i + 1],
        ),
        steps[i] is Done ==> i == replies.len(),
        steps.last() is Done && !(steps[i] is Done) ==> i < replies.len(),
{
    if i < replies.len() {
        assert(submit_answers(steps[i], replies[i]));
    }
}

/// A draft is the request as it was made: it goes to the thread that is named, without
/// the blanks around the name, or else to a fresh one, with every message, each with an
/// id.
pub proof fn lemma_draft_is_the_request(draft: Draft, request: RunActivation, background: bool)
    requires
        is_draft(draft, request, background),
    ensures
        draft.request.intent == request.intent,
        draft.request.options == request.options,
        draft.request.control == request.control,
        draft.request.persistence == request.persistence,
        draft.request.messages == request.messages,
        draft.request.has_run_resolver == request.has_run_resolver,
        draft.request.trace.origin == request.trace.origin,
        draft.request.trace.parent_run_id == request.trace.parent_run_id,
        request.trace.run_mode != RunMode::Foreground ==> draft.request.trace == request.trace,
        request.trace.run_mode == RunMode::Foreground && background
            ==> draft.request.trace.run_mode != RunMode::Foreground,
        request.trace.run_mode == RunMode::Foreground && request.trace.origin != RunOrigin::Internal
            && request.control.seeded_decisions@.len() == 0 && request.intent.kind is NewRun
            ==> draft.request.trace.run_mode == (if background {
            RunMode::Scheduled
        } else {
            RunMode::Foreground
        }),
        if is_blank(request.intent.thread_id@) {
            is_uuid(draft.thread_id@)
        } else {
            draft.thread_id@ == trim(request.intent.thread_id@)
        },
        draft.messages@.len() == request.messages@.len(),
        forall|i: int|
            0 <= i < draft.messages@.len() ==> {
                &&& (#[trigger] draft.messages@[i]).role == request.messages@[i].role
                &&& draft.messages@[i].id is Some && draft.messages@[i].id->0@.len() > 0
                &&& request.messages@[i].id is Some && request.messages@[i].id->0@.len() > 0
                    ==> draft.messages@[i].id->0@ == request.messages@[i].id->0@
            },
{
    assert forall|i: int| 0 <= i < draft.messages@.len() implies {
        &&& (#[trigger] draft.messages@[i]).role == request.messages@[i].role
        &&& draft.messages@[i].id is Some && draft.messages@[i].id->0@.len() > 0
        &&& request.messages@[i].id is Some && request.messages@[i].id->0@.len() > 0
            ==> draft.messages@[i].id->0@ == request.messages@[i].id->0@
    } by {
        let given = draft.messages@[i];
        let asked = request.messages@[i];
        assert(given@.role == given.role);
        assert(asked@.role == asked.role);
    }
}

/// A submit that is tried first is tried on the pending messages of its thread with an
/// empty foreground message behind them. Where nothing is pending, or the trial selects
/// something, the thread is interrupted; where the trial selects nothing, the submit is
/// refused for the first barrier, or for the first message where there is no barrier.
pub proof fn lemma_trial_decides_on_the_interrupt(
    settings: SubmitSettings,
    steps: Seq<SubmitStep>,
    replies: Seq<SubmitReply>,
    fresh: Seq<RunIds>,
    i: int,
    draft: Draft,
)
    requires
        is_submission(true, settings, steps, replies, fresh),
        steps.last() is Done,
        0 <= i < steps.len(),
        steps[i] == (SubmitStep::LoadPending { draft }),
    ensures
        replies[i] matches SubmitReply::Pending(result) && match result {
            Err(error) => steps[i + 1] == (SubmitStep::Done { outcome: Err(Fault::Store(error)) }),
            Ok(stored) => if stored@.len() == 0 {
                steps[i + 1] == (SubmitStep::Interrupt { draft })
            } else {
                &&& steps[i + 1] matches SubmitStep::Select { draft: d, queue } && {
                    &&& d == draft
                    &&& queue@.len() == stored@.len() + 1
                    &&& forall|k: int| 0 <= k < stored@.len() ==> #[trigger] queue@[k] == stored@[k]
                    &&& queue@.last().message.role == Role::User
                    &&& queue@.last().thread_id@ == draft.thread_id@
                    &&& queue@.last().delivery_mode.boundary == DeliveryBoundary::Interrupt
                    &&& !queue@.last().delivery_mode.barrier
                    &&& queue@.last().delivery_mode.target_run_id is None
                }
                &&& replies[i + 1] matches SubmitReply::Selected(count) && (count > 0 ==> steps[i
                    + 2] == (SubmitStep::Interrupt { draft })) && (count == 0 ==> (
                steps[i + 2] matches SubmitStep::Done {
                    outcome: Err(Fault::DeliveryBlockedByBarrier { blocking_pending_id }),
                } && exists|k: int|
                    0 <= k < stored@.len() && blocking_pending_id == (
                    #[trigger] stored@[k]).pending_id && (if stored@[k].delivery_mode.barrier {
                        forall|j: int| 0 <= j < k ==> !(#[trigger] stored@[j]).delivery_mode.barrier
                    } else {
                        k == 0 && forall|j: int|
                            0 <= j < stored@.len()
                                ==> !(#[trigger] stored@[j]).delivery_mode.barrier
                    })))
            },
        },
{
    lemma_submit_goes_on(true, settings, steps, replies, fresh, i);
    lemma_submit_goes_on(true, settings, steps, replies, fresh, i + 1);
    if let SubmitReply::Pending(Ok(stored)) = replies[i] {
        if stored@.len() > 0 {
            let queue = steps[i + 1]->queue;
            assert(queue@.drop_last() =~= stored@);
        }
    }
}

/// A thread that the store cannot interrupt is left to this process: where that cancels
/// its run the submit goes on, and else it is refused for the run under way. A thread
/// that the store interrupted is settled first, with a wait for the release: the
/// superseded dispatches and then the active one.
pub proof fn lemma_thread_is_free_before_the_run_is_prepared(
    settings: SubmitSettings,
    steps: Seq<SubmitStep>,
    replies: Seq<SubmitReply>,
    fresh: Seq<RunIds>,
    i: int,
    draft: Draft,
)
    requires
        is_submission(true, settings, steps, replies, fresh),
        steps.last() is Done,
        0 <= i < steps.len(),
        steps[i] == (SubmitStep::Interrupt { draft }),
    ensures
        replies[i] matches SubmitReply::Interrupted(result) && match result {
            Err(_) => {
                &&& steps[i + 1] == (SubmitStep::CancelAndWait { draft })
                &&& replies[i + 1] == SubmitReply::Accepted(true) ==> (
                steps[i + 2] matches SubmitStep::Prepare { preparation }
                    && preparation.scope.thread_id == draft.thread_id
                    && preparation.scope.has_pending_store == settings.has_pending_store)
                &&& replies[i + 1] == SubmitReply::Accepted(false) ==> steps[i + 2] == (
                SubmitStep::Done { outcome: Err(Fault::ActiveRunConflict) })
                &&& replies[i + 1] is Accepted
            },
            Ok(details) => {
                &&& details.superseded_dispatches@.len() > 0 ==> (
                steps[i + 1] matches SubmitStep::Settle { draft: d, aftermath } && d == draft
                    && aftermath.details == details && aftermath.wait_for_release && aftermath.step
                    == (AftermathStep::MarkSuperseded { at: 0 }))
                &&& details.superseded_dispatches@.len() == 0 && details.active_dispatch is Some
                    ==> (steps[i + 1] matches SubmitStep::Settle { draft: d, aftermath } && d
                    == draft && aftermath.details == details && aftermath.wait_for_release
                    && aftermath.step == (AftermathStep::CancelActive {
                    cancel: ActiveStep::CancelAndWait,
                }))
                &&& details.superseded_dispatches@.len() == 0 && details.active_dispatch is None
                    ==> (steps[i + 1] matches SubmitStep::Prepare { preparation }
                    && preparation.scope.thread_id == draft.thread_id)
            },
        },
{
    lemma_submit_goes_on(true, settings, steps, replies, fresh, i);
    lemma_submit_goes_on(true, settings, steps, replies, fresh, i + 1);
}

/// A settled thread lets the submit go on exactly where it is free. A thread whose run
/// could not be cancelled refuses the submit for the run under way, and a failure of the
/// store is the failure of the submit.
pub proof fn lemma_settled_thread_lets_the_submit_go_on(
    settings: SubmitSettings,
    steps: Seq<SubmitStep>,
    replies: Seq<SubmitReply>,
    fresh: Seq<RunIds>,
    i: int,
)
    requires
        is_submission(true, settings, steps, replies, fresh),
        steps.last() is Done,
        0 <= i < steps.len(),
        steps[i] is Settle,
        !(steps[i + 1] is Settle),
    ensures
        replies[i] matches SubmitReply::Settling(inner) && (steps[i] matches SubmitStep::Settle {
            draft,
            aftermath,
        } && (crate::mailbox::cancel::next_aftermath_step(
            aftermath,
            inner,
        ) matches AftermathStep::Done { outcome } && match outcome {
            Ok(true) => steps[i + 1] matches SubmitStep::Prepare { preparation }
                && preparation.scope.thread_id == draft.thread_id,
            Ok(false) => steps[i + 1] == (SubmitStep::Done {
                outcome: Err(Fault::ActiveRunConflict),
            }),
            Err(fault) => steps[i + 1] == (SubmitStep::Done { outcome: Err(fault) }),
        })),
{
    lemma_submit_goes_on(true, settings, steps, replies, fresh, i);
}

/// Whether a dispatch is queued for the run of a prepared request on a thread, under the
/// id that the request names.
pub open spec fn is_queued_for(
    dispatch: RunDispatch,
    request: RunActivation,
    thread_id: Seq<char>,
    max_attempts: u32,
    now: u64,
) -> bool {
    &&& dispatch.thread_id@ == thread_id
    &&& dispatch.status == RunDispatchStatus::Queued
    &&& dispatch.max_attempts == max_attempts
    &&& dispatch.attempt_count == 0
    &&& dispatch.claim_token is None
    &&& dispatch.created_at == now
    &&& request.persistence.dispatch_id_hint is Some ==> Some(dispatch.dispatch_id)
        == request.persistence.dispatch_id_hint
    &&& request.intent.kind matches crate::activation::RunKind::HitlResume { run_id }
        ==> dispatch.run_id == run_id
    &&& request.intent.kind is NewRun ==> Some(dispatch.run_id) == request.persistence.run_id_hint
}

/// A prepared run is queued at once. One that this process means to claim itself is
/// kept from the others for a minute; any other is open to them at once. A preparation
/// that failed is the failure of the submit.
pub proof fn lemma_prepared_run_is_queued(
    inline: bool,
    settings: SubmitSettings,
    stage: RunPreparation,
    now: u64,
    after: SubmitStep,
)
    requires
        follows_preparation(inline, settings, stage, now, after),
    ensures
        match stage.step {
            PrepareStep::Done { outcome: Err(fault) } => after == (SubmitStep::Done {
                outcome: Err(fault),
            }),
            PrepareStep::Done { outcome: Ok(run_id) } => match after {
                SubmitStep::Enqueue { request, run_id: id, dispatch } => {
                    &&& request == stage.request
                    &&& id == run_id
                    &&& is_queued_for(
                        dispatch,
                        request,
                        stage.scope.thread_id@,
                        settings.max_attempts,
                        now,
                    )
                    &&& inline ==> dispatch.available_at == now + 60_000
                    &&& !inline ==> dispatch.available_at == now
                },
                SubmitStep::Done { outcome } => stage.request.intent.kind is NewRun
                    && stage.request.persistence.run_id_hint is None && outcome == Err::<
                    MailboxSubmitResult,
                    Fault,
                >(Fault::RunIdMissing),
                _ => false,
            },
            _ => after == (SubmitStep::Prepare { preparation: stage }),
        },
{
}

/// A dispatch that the store took is told as queued, and then claimed by this process or
/// handed to the worker of the thread. One that it did not take is told as failed, with
/// the decisions that are lost with it where the request brought some, and the submit
/// fails with the store's error.
pub proof fn lemma_queueing_is_told(
    inline: bool,
    settings: SubmitSettings,
    steps: Seq<SubmitStep>,
    replies: Seq<SubmitReply>,
    fresh: Seq<RunIds>,
    i: int,
    request: RunActivation,
    run_id: String,
    dispatch: RunDispatch,
)
    requires
        is_submission(inline, settings, steps, replies, fresh),
        steps.last() is Done,
        0 <= i < steps.len(),
        steps[i] == (SubmitStep::Enqueue { request, run_id, dispatch }),
    ensures
        replies[i] is Queued ==> steps[i + 1] == (SubmitStep::PublishQueued { run_id, dispatch })
            && steps[i + 2] == (if inline {
            SubmitStep::Claim { run_id, dispatch }
        } else {
            SubmitStep::DispatchNext { run_id, dispatch }
        }),
        replies[i] matches SubmitReply::NotQueued(error) ==> {
            let refused = SubmitStep::Done { outcome: Err(Fault::Store(error)) };
            &&& steps[i + 1] == (SubmitStep::PublishSubmitFailed { request, dispatch, error })
            &&& request.control.seeded_decisions@.len() > 0 ==> steps[i + 2] == (
            SubmitStep::PublishResumeFailed { request, dispatch, error }) && steps[i + 3] == refused
            &&& request.control.seeded_decisions@.len() == 0 ==> steps[i + 2] == refused
        },
        replies[i] is Queued || replies[i] is NotQueued,
{
    lemma_submit_goes_on(inline, settings, steps, replies, fresh, i);
    lemma_submit_goes_on(inline, settings, steps, replies, fresh, i + 1);
    if i + 2 < steps.len() {
        lemma_submit_goes_on(inline, settings, steps, replies, fresh, i + 2);
    }
}

/// A submit for streaming succeeds exactly where this process claimed the dispatch, which
/// it then starts; it is reported as running. A dispatch that was claimed by nobody is
/// cancelled, and its run is marked or reconciled with how the dispatch ended; the submit
/// is refused for the run under way.
pub proof fn lemma_claim_decides_on_the_stream(
    settings: SubmitSettings,
    steps: Seq<SubmitStep>,
    replies: Seq<SubmitReply>,
    fresh: Seq<RunIds>,
    i: int,
    run_id: String,
    dispatch: RunDispatch,
)
    requires
        is_submission(true, settings, steps, replies, fresh),
        steps.last() is Done,
        0 <= i < steps.len(),
        steps[i] == (SubmitStep::Claim { run_id, dispatch }),
    ensures
        replies[i] matches SubmitReply::Claimed(result) && match result {
            Err(error) => steps[i + 1] == (SubmitStep::Done { outcome: Err(Fault::Store(error)) }),
            Ok(Some(claimed)) => match claimed.claim_token {
                Some(claim_token) => {
                    &&& steps[i + 1] == (SubmitStep::Start { run_id, dispatch, claimed, claim_token })
                    &&& steps[i + 2] == (SubmitStep::Done {
                        outcome: Ok(
                            MailboxSubmitResult {
                                dispatch_id: dispatch.dispatch_id,
                                run_id,
                                thread_id: dispatch.thread_id,
                                status: MailboxDispatchStatus::Running,
                            },
                        ),
                    })
                },
                None => steps[i + 1] == (SubmitStep::Done {
                    outcome: Err(Fault::ClaimTokenMissing { dispatch_id: claimed.dispatch_id }),
                }),
            },
            Ok(None) => {
                &&& steps[i + 1] == (SubmitStep::CancelOrphan { dispatch })
                &&& steps.last() == (SubmitStep::Done { outcome: Err(Fault::ActiveRunConflict) })
                &&& replies[i + 1] matches SubmitReply::Cancelled(cancelled) && match cancelled {
                    Err(_) => steps[i + 2] is Done,
                    Ok(Some(gone)) => steps[i + 2] == (SubmitStep::MarkOrphan { cancelled: gone })
                        && steps[i + 3] is Done,
                    Ok(None) => {
                        &&& steps[i + 2] == (SubmitStep::ReloadOrphan { dispatch })
                        &&& replies[i + 2] matches SubmitReply::Dispatch(found) && match found {
                            Ok(Some(ended)) => match ended.status {
                                RunDispatchStatus::DeadLetter => steps[i + 3] == (
                                SubmitStep::ReconcileOrphan {
                                    ended,
                                    kind: TerminalKind::DeadLetter,
                                }),
                                RunDispatchStatus::Cancelled => steps[i + 3] == (
                                SubmitStep::ReconcileOrphan {
                                    ended,
                                    kind: TerminalKind::Cancelled,
                                }),
                                RunDispatchStatus::Superseded => steps[i + 3] == (
                                SubmitStep::ReconcileOrphan {
                                    ended,
                                    kind: TerminalKind::Superseded,
                                }),
                                _ => steps[i + 3] is Done,
                            },
                            _ => steps[i + 3] is Done,
                        }
                    },
                }
            },
        },
{
    lemma_submit_goes_on(true, settings, steps, replies, fresh, i);
    lemma_submit_goes_on(true, settings, steps, replies, fresh, i + 1);
    if i + 2 < steps.len() {
        lemma_submit_goes_on(true, settings, steps, replies, fresh, i + 2);
    }
    if i + 3 < steps.len() {
        lemma_submit_goes_on(true, settings, steps, replies, fresh, i + 3);
    }
    if i + 4 < steps.len() {
        lemma_submit_goes_on(true, settings, steps, replies, fresh, i + 4);
    }
}

/// A submit in the background succeeds once the dispatch is queued: it is reported as
/// running exactly where the worker started it, and else as queued.
pub proof fn lemma_worker_decides_on_the_status(
    settings: SubmitSettings,
    steps: Seq<SubmitStep>,
    replies: Seq<SubmitReply>,
    fresh: Seq<RunIds>,
    i: int,
    run_id: String,
    dispatch: RunDispatch,
)
    requires
        is_submission(false, settings, steps, replies, fresh),
        steps.last() is Done,
        0 <= i < steps.len(),
        steps[i] == (SubmitStep::DispatchNext { run_id, dispatch }),
    ensures
        replies[i] matches SubmitReply::Dispatched { started } && steps[i + 1] == (
        SubmitStep::Done {
            outcome: Ok(
                MailboxSubmitResult {
                    dispatch_id: dispatch.dispatch_id,
                    run_id,
                    thread_id: dispatch.thread_id,
                    status: if started {
                        MailboxDispatchStatus::Running
                    } else {
                        MailboxDispatchStatus::Queued
                    },
                },
            ),
        }),
{
    lemma_submit_goes_on(false, settings, steps, replies, fresh, i);
}

/// A live delivery: the steps that were due and the replies to them. `local` is the run
/// that this node's worker runs on the thread.
pub open spec fn is_live_delivery(
    scope: LiveScope,
    messages: Vec<Message>,
    local: Option<ActiveRun>,
    steps: Seq<LiveStep>,
    replies: Seq<LiveReply>,
) -> bool {
    &&& steps.len() == replies.len() + 1
    &&& steps[0] == first_live_step(scope, messages, local)
    &&& forall|i: int|
        #![trigger replies[i]]
        0 <= i < replies.len() ==> live_answers(steps[i], replies[i]) && steps[i + 1]
            == next_live_step(scope, steps[i], replies[i])
}

/// Whether messages may go to a run: they are meant for it, or for whichever runs.
pub open spec fn is_meant_for(scope: LiveScope, run_id: String) -> bool {
    scope.expected_run_id is None || scope.expected_run_id->0@ == run_id@
}

/// What a delivery reports of a run that took the messages.
pub open spec fn reports(
    report: MailboxSubmitResult,
    scope: LiveScope,
    run_id: String,
    dispatch_id: String,
) -> bool {
    &&& report.run_id == run_id
    &&& report.dispatch_id == dispatch_id
    &&& report.thread_id == scope.thread_id
    &&& report.status == MailboxDispatchStatus::Running
}

/// Messages go to the run of this node where it has one that they are meant for. With a
/// pending store they are staged for that run alone and it is told of them; without one
/// they are sent. The delivery reports the run exactly where that took them; where it
/// did not, what was staged is retracted.
pub proof fn lemma_messages_go_to_the_local_run(
    scope: LiveScope,
    messages: Vec<Message>,
    active: ActiveRun,
    steps: Seq<LiveStep>,
    replies: Seq<LiveReply>,
)
    requires
        is_live_delivery(scope, messages, Some(active), steps, replies),
    ensures
        replies.len() <= 3,
        messages@.len() == 0 || !is_meant_for(scope, active.run_id) ==> steps.len() == 1
            && steps[0] == (LiveStep::Done { outcome: Ok(None) }),
        messages@.len() > 0 && is_meant_for(scope, active.run_id) && scope.has_pending_store ==> {
            &&& steps[0] matches LiveStep::StageLocal { active: a, messages: m, mode } && a
                == active && m == messages && mode.boundary == DeliveryBoundary::NextStep
                && mode.target_run_id == Some(active.run_id) && !mode.fallback_to_new_run
                && !mode.barrier
            &&& steps.last() matches LiveStep::Done { outcome } ==> (
            replies[0] matches LiveReply::Staged(result) && match result {
                Err(fault) => outcome == Err::<Option<MailboxSubmitResult>, Fault>(fault),
                Ok(staged) => {
                    &&& steps[1] == (LiveStep::WakeLocal { active, staged })
                    &&& replies[1] == LiveReply::Accepted(true) ==> (outcome matches Ok(
                        Some(report),
                    ) && reports(report, scope, active.run_id, active.dispatch_id))
                    &&& replies[1] == LiveReply::Accepted(false) ==> steps[2] == (
                    LiveStep::Cleanup { staged }) && outcome == Ok::<
                        Option<MailboxSubmitResult>,
                        Fault,
                    >(None)
                    &&& replies[1] is Accepted
                },
            })
        },
        messages@.len() > 0 && is_meant_for(scope, active.run_id) && !scope.has_pending_store ==> {
            &&& steps[0] == (LiveStep::SendLocal { active, messages })
            &&& steps.last() matches LiveStep::Done { outcome } ==> (replies[0] == LiveReply::Accepted(
                true,
            ) && (outcome matches Ok(Some(report)) && reports(
                report,
                scope,
                active.run_id,
                active.dispatch_id,
            ))) || (replies[0] == LiveReply::Accepted(false) && outcome == Ok::<
                Option<MailboxSubmitResult>,
                Fault,
            >(None))
        },
{
    let n = replies.len();
    if n > 0 {
        assert(live_answers(steps[0], replies[0]));
    }
    if n > 1 {
        assert(live_answers(steps[1], replies[1]));
    }
    if n > 2 {
        assert(live_answers(steps[2], replies[2]));
    }
    if n > 3 {
        assert(live_answers(steps[3], replies[3]));
    }
}

/// Whether the latest run of a thread is one that messages go to from another node.
pub open spec fn may_take(scope: LiveScope, run: RunRecord) -> bool {
    run.status == RunStatus::Running && is_meant_for(scope, run.run_id)
}

/// Where this node runs nothing on the thread, messages go to the thread's latest run,
/// where that is running and they are meant for it. The delivery reports that run exactly
/// where its subscriber took them; where there is no subscriber, what was staged is
/// retracted. Nothing is delivered where the latest run cannot take them.
pub proof fn lemma_messages_go_to_the_latest_run(
    scope: LiveScope,
    messages: Vec<Message>,
    steps: Seq<LiveStep>,
    replies: Seq<LiveReply>,
    outcome: Result<Option<MailboxSubmitResult>, Fault>,
)
    requires
        is_live_delivery(scope, messages, None, steps, replies),
        messages@.len() > 0,
        steps.last() == (LiveStep::Done { outcome }),
    ensures
        steps[0] == (LiveStep::LatestRun { messages }),
        replies[0] matches LiveReply::Run(result) && match result {
            Err(error) => outcome == Err::<Option<MailboxSubmitResult>, Fault>(Fault::Store(error)),
            Ok(found) => if found is None || !may_take(scope, found->0) {
                steps.len() == 2 && outcome == Ok::<Option<MailboxSubmitResult>, Fault>(None)
            } else {
                let run = found->0;
                let at: int = if scope.has_pending_store {
                    2
                } else {
                    1
                };
                &&& scope.has_pending_store ==> (steps[1] matches LiveStep::StageRemote {
                    messages: m,
                    mode,
                    ..
                } && m == messages && mode.boundary == DeliveryBoundary::NextStep
                    && mode.target_run_id == Some(run.run_id) && !mode.fallback_to_new_run)
                &&& scope.has_pending_store && replies[1] is Staged && replies[1]->Staged_0 is Err
                    ==> outcome == Err::<Option<MailboxSubmitResult>, Fault>(
                    replies[1]->Staged_0->Err_0,
                )
                &&& !scope.has_pending_store || (replies[1] is Staged && replies[1]->Staged_0 is Ok)
                    ==> {
                    &&& (steps[at] matches LiveStep::WakeRemote { target, .. } && target.run_id
                        == run.run_id && target.thread_id == run.thread_id && target.dispatch_id
                        == run.dispatch_id) || (steps[at] matches LiveStep::SendRemote {
                        target,
                        messages: m,
                        ..
                    } && m == messages && target.run_id == run.run_id && target.thread_id
                        == run.thread_id && target.dispatch_id == run.dispatch_id)
                    &&& replies[at] matches LiveReply::Delivered(taken) && match taken {
                        Err(error) => outcome == Err::<Option<MailboxSubmitResult>, Fault>(
                            Fault::Store(error),
                        ),
                        Ok(LiveDeliveryOutcome::Delivered) => outcome matches Ok(Some(report))
                            && reports(
                            report,
                            scope,
                            run.run_id,
                            if run.dispatch_id is Some {
                                run.dispatch_id->0
                            } else {
                                run.run_id
                            },
                        ),
                        Ok(LiveDeliveryOutcome::NoSubscriber) => outcome == Ok::<
                            Option<MailboxSubmitResult>,
                            Fault,
                        >(None) && (scope.has_pending_store ==> (
                        steps[at + 1] matches LiveStep::Cleanup { staged } && replies[1]->Staged_0
                            == Ok::<
                            Vec<crate::delivery::PendingMessageRecord>,
                            Fault,
                        >(staged))),
                    }
                }
            },
        },
{
    let n = replies.len();
    if n > 0 {
        assert(live_answers(steps[0], replies[0]));
    }
    if n > 1 {
        assert(live_answers(steps[1], replies[1]));
    }
    if n > 2 {
        assert(live_answers(steps[2], replies[2]));
    }
    if n > 3 {
        assert(live_answers(steps[3], replies[3]));
    }
    if n > 4 {
        assert(live_answers(steps[4], replies[4]));
    }
}

/// The lookup of a run that waits for input: the steps that were due and the replies.
pub open spec fn is_waiting_lookup(
    thread_id: String,
    steps: Seq<WaitingStep>,
    replies: Seq<WaitingReply>,
) -> bool {
    &&& steps.len() == replies.len() + 1
    &&& steps[0] is LoadThread
    &&& forall|i: int|
        #![trigger replies[i]]
        0 <= i < replies.len() ==> waiting_answers(steps[i], replies[i]) && steps[i + 1]
            == next_waiting_step(thread_id, steps[i], replies[i])
}

/// Whether a run waits for input that may continue it.
pub open spec fn waits_for_input(run: RunRecord) -> bool {
    run.status == RunStatus::Waiting && run.waiting is Some && run.waiting->0.resumable
}

/// The run that the thread names as open is found where it is of the thread and waits for
/// input that may continue it. Else the latest run of the thread is found, where that
/// does. Where neither does, none is found; and a store that fails makes the lookup fail.
pub proof fn lemma_lookup_finds_the_run_that_waits(
    thread_id: String,
    steps: Seq<WaitingStep>,
    replies: Seq<WaitingReply>,
    outcome: Result<Option<String>, Fault>,
)
    requires
        is_waiting_lookup(thread_id, steps, replies),
        steps.last() == (WaitingStep::Done { outcome }),
    ensures
        replies.len() <= 3,
        replies[0] matches WaitingReply::Thread(thread) && match thread {
            Err(error) => outcome == Err::<Option<String>, Fault>(Fault::Store(error)),
            Ok(open) => {
                let named = open is Some && open->0 is Some;
                let at: int = if named {
                    2
                } else {
                    1
                };
                &&& named ==> steps[1] == (WaitingStep::LoadOpenRun { open_run_id: open->0->0 })
                &&& if named && replies[1] is Run && replies[1]->Run_0 is Err {
                    outcome == Err::<Option<String>, Fault>(
                        Fault::Store(replies[1]->Run_0->Err_0),
                    )
                } else if named && replies[1] is Run && replies[1]->Run_0->Ok_0 is Some
                    && replies[1]->Run_0->Ok_0->0.thread_id@ == thread_id@ && waits_for_input(
                    replies[1]->Run_0->Ok_0->0,
                ) {
                    outcome == Ok::<Option<String>, Fault>(
                        Some(replies[1]->Run_0->Ok_0->0.run_id),
                    )
                } else {
                    &&& steps[at] is LatestRun
                    &&& replies[at] matches WaitingReply::Run(latest) && match latest {
                        Err(error) => outcome == Err::<Option<String>, Fault>(Fault::Store(error)),
                        Ok(Some(run)) => outcome == Ok::<Option<String>, Fault>(
                            if waits_for_input(run) {
                                Some(run.run_id)
                            } else {
                                None
                            },
                        ),
                        Ok(None) => outcome == Ok::<Option<String>, Fault>(None),
                    }
                }
            },
        },
{
    let n = replies.len();
    if n > 0 {
        assert(waiting_answers(steps[0], replies[0]));
    }
    if n > 1 {
        assert(waiting_answers(steps[1], replies[1]));
    }
    if n > 2 {
        assert(waiting_answers(steps[2], replies[2]));
    }
    if n > 3 {
        assert(waiting_answers(steps[3], replies[3]));
    }
}

/// A submit to the run under way ends with the run that took the messages. Messages that
/// no run took are submitted in the background; those are not told as delivered, and a
/// delivery that failed is the failure of the submit.
pub proof fn lemma_messages_that_were_not_taken_are_queued(
    settings: SubmitSettings,
    step: LiveQueueStep,
    reply: LiveQueueReply,
    fresh: RunIds,
    after: LiveQueueStep,
)
    requires
        live_queue_answers(step, reply),
        live_queue_follows(settings, step, reply, fresh, after),
    ensures
        step is Queue ==> !(after is Live),
        step matches LiveQueueStep::Live { delivery, request } ==> (
        reply matches LiveQueueReply::Delivering(inner) && ({
            let next = next_live_step(delivery.scope, delivery.step, inner);
            &&& next matches LiveStep::Done { outcome: Ok(Some(report)) } ==> after == (
            LiveQueueStep::Done { outcome: Ok(report) })
            &&& next matches LiveStep::Done { outcome: Err(fault) } ==> after == (
            LiveQueueStep::Done { outcome: Err(fault) })
            &&& next == (LiveStep::Done { outcome: Ok(None) }) && request.messages@.len() > 0 ==> (
            after matches LiveQueueStep::Queue { submission } && !submission.inline
                && submission.settings == settings && submission.step is Prepare)
            &&& !(next is Done) ==> (after matches LiveQueueStep::Live { delivery: d, request: r }
                && d.step == next && d.scope == delivery.scope && r == request)
        })),
        step matches LiveQueueStep::Queue { submission } ==> (
        after matches LiveQueueStep::Queue { submission: s } ==> s.inline == submission.inline
            && s.settings == submission.settings),
{
}

/// A request is refused for want of input exactly where it has neither a message nor a
/// decision.
pub proof fn lemma_submit_needs_a_message_or_a_decision(request: RunActivation)
    ensures
        is_submittable(request) <==> request.messages@.len() > 0
            || request.control.seeded_decisions@.len() > 0,
{
}

/// What messages fall back to is the request that brought them: the same agent, options,
/// decisions and origin, on its thread, with every message.
pub proof fn lemma_fallback_is_the_request(
    queued: RunActivation,
    request: RunActivation,
    thread_id: Seq<char>,
)
    requires
        is_fallback(queued, request, thread_id),
    ensures
        queued.intent.agent_id == request.intent.agent_id,
        queued.intent.kind == request.intent.kind,
        queued.options == request.options,
        queued.control == request.control,
        queued.trace == request.trace,
        queued.persistence == request.persistence,
        queued.has_run_resolver == request.has_run_resolver,
        queued.intent.thread_id@ == thread_id,
        if is_blank(request.intent.thread_id@) {
            is_uuid(thread_id)
        } else {
            thread_id == trim(request.intent.thread_id@)
        },
        queued.messages@.len() == request.messages@.len(),
        forall|i: int|
            0 <= i < queued.messages@.len() ==> (#[trigger] queued.messages@[i]).role
                == request.messages@[i].role && queued.messages@[i].content@
                == request.messages@[i].content@,
{
    assert forall|i: int| 0 <= i < queued.messages@.len() implies (
    #[trigger] queued.messages@[i]).role == request.messages@[i].role
        && queued.messages@[i].content@ == request.messages@[i].content@ by {
        let given = queued.messages@[i];
        let asked = request.messages@[i];
        assert(given@.role == given.role && asked@.role == asked.role);
        assert(given@.content == given.content@ && asked@.content == asked.content@);
    }
}

/// A submit takes up the end of what follows the interrupt, and of the preparation, at
/// once.
pub proof fn lemma_submit_takes_up_what_has_ended(
    inline: bool,
    settings: SubmitSettings,
    step: SubmitStep,
    reply: SubmitReply,
    fresh: RunIds,
    after: SubmitStep,
)
    requires
        submit_answers(step, reply),
        submit_follows(inline, settings, step, reply, fresh, after),
    ensures
        after matches SubmitStep::Settle { aftermath, .. } ==> !(aftermath.step is Done),
        step matches SubmitStep::Prepare { .. } ==> (after matches SubmitStep::Prepare { preparation }
            ==> !(preparation.step is Done)),
{
}

} // verus!
