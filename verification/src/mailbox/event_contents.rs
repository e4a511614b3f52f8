//! What the events of the mailbox say: which step publishes which event, of what, and
//! under which key.

use vstd::prelude::*;

use crate::activation::{SeededDecision, ToolCallResume};
use crate::dispatch::{LiveRunTarget, RunDispatch, RunDispatchStatus};
use crate::mailbox::cancel::{
    is_aftermath_event, is_mark_event, ActiveStep, Aftermath, AftermathStep, TerminalMark,
};
use crate::mailbox::dispatch_execution::{
    is_execution_event, ClaimedDispatch, ExecutionStep, RunEnd,
};
use crate::mailbox::helpers::{ids_of, lemma_ids_are_those_of_the_messages};
use crate::mailbox::recovery::{
    is_prepared_event, is_recover_event, PreparedRecovery, PreparedStep, RecoverStep,
};
use crate::mailbox::server_event_capture::{
    all_undelivered, decision_event_key, dispatch_event_key, fields, has_event, is_checkpoint,
    is_decision_received, is_dispatch_event, is_message_committed, is_permission_resolved,
    is_range_checkpointed, is_resume_failed_event, message_key, range_has_events, range_key,
    EventDraft, EventPayload, PayloadField, PayloadView,
};
use crate::mailbox::submit::{is_submit_event, SubmitStep};
use crate::message::{Message, Role, Visibility};
use crate::text::{decimal, lemma_numbers_are_told_apart};

verus! {

/// Whether an event has a field of the given name with the given value.
pub open spec fn tells(draft: EventDraft, name: Seq<char>, value: PayloadView) -> bool {
    draft.payload matches EventPayload::Fields(payload) && exists|i: int|
        0 <= i < payload@.len() && (#[trigger] payload@[i]).name@ == name && payload@[i].value@
            == value
}

proof fn lemma_field_is_told(
    draft: EventDraft,
    payload: Vec<PayloadField>,
    expected: Seq<(&'static str, PayloadView)>,
    i: int,
)
    requires
        draft.payload == EventPayload::Fields(payload),
        fields(payload@) == expected,
        0 <= i < expected.len(),
    ensures
        tells(draft, expected[i].0@, expected[i].1),
{
    assert(fields(payload@)[i] == (payload@[i].name, payload@[i].value@));
    assert(payload@[i].name@ == expected[i].0@);
}

/// The label under which an event tells the status of a dispatch.
pub open spec fn told_status(status: RunDispatchStatus) -> Seq<char> {
    match status {
        RunDispatchStatus::Queued => "queued"@,
        RunDispatchStatus::Claimed => "claimed"@,
        RunDispatchStatus::Acked => "acked"@,
        RunDispatchStatus::Cancelled => "cancelled"@,
        RunDispatchStatus::Superseded => "superseded"@,
        RunDispatchStatus::DeadLetter => "dead_letter"@,
    }
}

/// Whether an event is of a kind and on a dispatch: it is in the scope of the dispatch's
/// thread and run, correlated by the dispatch.
pub open spec fn is_of_dispatch(draft: EventDraft, kind: Seq<char>, dispatch: RunDispatch) -> bool {
    &&& draft.kind@ == kind
    &&& draft.thread_id@ == dispatch.thread_id@
    &&& draft.run_id@ == dispatch.run_id@
    &&& draft.correlation_id@ == dispatch.dispatch_id@
    &&& draft.idempotency_key@ == kind + "/"@ + dispatch.dispatch_id@ + "/"@ + decimal(
        dispatch.attempt_count as nat,
    )
}

/// An event on a dispatch is in the scope of its thread and run and correlated by it, and
/// tells its ids, how often it was tried, its status and its times; and a reason, an
/// error and a timeout where it has them.
pub proof fn lemma_event_tells_of_its_dispatch(
    draft: EventDraft,
    kind: &'static str,
    dispatch: RunDispatch,
    reason: Option<&'static str>,
    error: Option<Seq<char>>,
    timeout_ms: Option<u64>,
)
    requires
        is_dispatch_event(draft, kind, dispatch, reason, error, timeout_ms),
    ensures
        is_of_dispatch(draft, kind@, dispatch),
        tells(draft, "thread_id"@, PayloadView::Text(dispatch.thread_id@)),
        tells(draft, "run_id"@, PayloadView::Text(dispatch.run_id@)),
        tells(draft, "dispatch_id"@, PayloadView::Text(dispatch.dispatch_id@)),
        tells(draft, "dispatch_epoch"@, PayloadView::Number(dispatch.dispatch_epoch)),
        tells(draft, "attempt_count"@, PayloadView::Number(dispatch.attempt_count as u64)),
        tells(draft, "status"@, PayloadView::Text(told_status(dispatch.status))),
        tells(draft, "available_at"@, PayloadView::Number(dispatch.available_at)),
        tells(draft, "created_at"@, PayloadView::Number(dispatch.created_at)),
        tells(draft, "updated_at"@, PayloadView::Number(dispatch.updated_at)),
        reason matches Some(text) ==> tells(draft, "reason"@, PayloadView::Text(text@)),
        error matches Some(text) ==> tells(draft, "error"@, PayloadView::Text(text)),
        timeout_ms matches Some(ms) ==> tells(draft, "timeout_ms"@, PayloadView::Number(ms)),
{
    let payload = draft.payload->Fields_0;
    let expected = fields(payload@);
    lemma_field_is_told(draft, payload, expected, 0);
    lemma_field_is_told(draft, payload, expected, 1);
    lemma_field_is_told(draft, payload, expected, 2);
    lemma_field_is_told(draft, payload, expected, 3);
    lemma_field_is_told(draft, payload, expected, 4);
    lemma_field_is_told(draft, payload, expected, 5);
    lemma_field_is_told(draft, payload, expected, 6);
    lemma_field_is_told(draft, payload, expected, 7);
    lemma_field_is_told(draft, payload, expected, 8);
    let after_reason: int = if reason is Some {
        10
    } else {
        9
    };
    if reason is Some {
        lemma_field_is_told(draft, payload, expected, 9);
    }
    if error is Some {
        lemma_field_is_told(draft, payload, expected, after_reason);
    }
    if timeout_ms is Some {
        lemma_field_is_told(
            draft,
            payload,
            expected,
            if error is Some {
                after_reason + 1
            } else {
                after_reason
            },
        );
    }
}

/// Two events of a kind on a dispatch have the same key exactly where they are of the
/// same attempt: an event that is published again is known, and a later attempt has
/// events of its own.
pub proof fn lemma_event_key_tells_attempts_apart(
    kind: &'static str,
    one: RunDispatch,
    other: RunDispatch,
)
    requires
        one.dispatch_id@ == other.dispatch_id@,
    ensures
        dispatch_event_key(kind, one) == dispatch_event_key(kind, other) <==> one.attempt_count
            == other.attempt_count,
{
    let head = kind@ + "/"@ + one.dispatch_id@ + "/"@;
    let first = decimal(one.attempt_count as nat);
    let second = decimal(other.attempt_count as nat);
    if head + first == head + second {
        assert((head + first).skip(head.len() as int) =~= first);
        assert((head + second).skip(head.len() as int) =~= second);
        lemma_numbers_are_told_apart(one.attempt_count as nat, other.attempt_count as nat);
    }
}

/// The execution of a dispatch publishes exactly three events: that the run was
/// submitted, that it failed for good, with the error, and that it was rescheduled, for
/// the retry.
pub proof fn lemma_execution_tells_of_the_run(
    execution: ClaimedDispatch,
    event: Option<EventDraft>,
)
    requires
        is_execution_event(execution, event),
    ensures
        execution.step is PublishSubmitted ==> event is Some && is_of_dispatch(
            event->0,
            "RunSubmitted"@,
            execution.claim.dispatch,
        ),
        execution.step matches ExecutionStep::PublishErrored { end, .. } ==> event is Some
            && is_of_dispatch(event->0, "RunErrored"@, execution.claim.dispatch) && (
        event->0.payload matches EventPayload::RunFinish { thread_id, run_id, error } && thread_id
            == execution.claim.dispatch.thread_id && run_id == execution.claim.dispatch.run_id
            && (end matches RunEnd::Ran(Err(failure)) ==> error@ == failure.text())),
        execution.step matches ExecutionStep::PublishRescheduled { dispatch } ==> (event is Some
            <==> dispatch.status == RunDispatchStatus::Queued) && (event is Some ==> is_of_dispatch(
            event->0,
            "RunRescheduled"@,
            dispatch,
        ) && tells(event->0, "reason"@, PayloadView::Text("retry_backoff"@))),
        !(execution.step is PublishSubmitted) && !(execution.step is PublishErrored) && !(
        execution.step is PublishRescheduled) ==> event is None,
{
    match execution.step {
        ExecutionStep::PublishSubmitted { .. } => {
            lemma_event_tells_of_its_dispatch(
                event->0,
                "RunSubmitted",
                execution.claim.dispatch,
                None,
                None,
                None,
            );
        },
        ExecutionStep::PublishRescheduled { dispatch } => {
            if event is Some {
                lemma_event_tells_of_its_dispatch(
                    event->0,
                    "RunRescheduled",
                    dispatch,
                    Some("retry_backoff"),
                    None,
                    None,
                );
            }
        },
        _ => {},
    }
}

/// The marking of a run publishes an event exactly where the run of a cancelled dispatch
/// was marked: that it was cancelled.
pub proof fn lemma_marking_tells_of_the_cancel(mark: TerminalMark, event: Option<EventDraft>)
    requires
        is_mark_event(mark, event),
    ensures
        event is Some <==> mark.step is PublishCancelled,
        event is Some ==> is_of_dispatch(event->0, "RunCancelled"@, mark.dispatch),
{
    if event is Some {
        lemma_event_tells_of_its_dispatch(
            event->0,
            "RunCancelled",
            mark.dispatch,
            None,
            None,
            None,
        );
    }
}

/// The settling of an interrupted thread publishes that the active run was interrupted,
/// and a wait for its release that timed out, with the side that was waited for and how
/// long.
pub proof fn lemma_settling_tells_of_the_active_run(
    aftermath: Aftermath,
    wait_ms: u64,
    event: Option<EventDraft>,
    active: RunDispatch,
)
    requires
        is_aftermath_event(aftermath, wait_ms, event),
        aftermath.details.active_dispatch == Some(active),
    ensures
        aftermath.step is PublishInterrupted ==> event is Some && is_of_dispatch(
            event->0,
            "RunInterrupted"@,
            active,
        ),
        aftermath.step matches AftermathStep::CancelActive {
            cancel: ActiveStep::PublishTimeout { operation },
        } ==> event is Some && is_of_dispatch(event->0, "MailboxTimeout"@, active) && tells(
            event->0,
            "reason"@,
            PayloadView::Text(operation@),
        ) && tells(event->0, "timeout_ms"@, PayloadView::Number(wait_ms)),
        aftermath.step is MarkSuperseded || aftermath.step is Done ==> event is None,
{
    match aftermath.step {
        AftermathStep::PublishInterrupted => {
            lemma_event_tells_of_its_dispatch(
                event->0,
                "RunInterrupted",
                active,
                None,
                None,
                None,
            );
        },
        AftermathStep::CancelActive { cancel: ActiveStep::PublishTimeout { operation } } => {
            lemma_event_tells_of_its_dispatch(
                event->0,
                "MailboxTimeout",
                active,
                Some(operation),
                None,
                Some(wait_ms),
            );
        },
        _ => {},
    }
}

/// A submit publishes that its dispatch is queued, or else that it could not be queued,
/// with the store's error, and then, where the request brought decisions, that these were
/// not delivered, each with its tool call and its action.
pub proof fn lemma_submit_tells_of_the_queue(
    step: SubmitStep,
    wait_ms: u64,
    event: Option<EventDraft>,
)
    requires
        is_submit_event(step, wait_ms, event),
    ensures
        step matches SubmitStep::PublishQueued { dispatch, .. } ==> event is Some && is_of_dispatch(
            event->0,
            "RunQueued"@,
            dispatch,
        ),
        step matches SubmitStep::PublishSubmitFailed { dispatch, error, .. } ==> event is Some
            && is_of_dispatch(event->0, "MailboxSubmitFailed"@, dispatch) && tells(
            event->0,
            "reason"@,
            PayloadView::Text("enqueue_failed"@),
        ) && tells(event->0, "error"@, PayloadView::Text(error.text())),
        step matches SubmitStep::PublishResumeFailed { request, dispatch, error } ==> event is Some
            && is_of_dispatch(event->0, "MailboxResumeFailed"@, dispatch) && tells(
            event->0,
            "reason"@,
            PayloadView::Text("enqueue_failed"@),
        ) && tells(event->0, "error"@, PayloadView::Text(error.text())) && tells(
            event->0,
            "decisions"@,
            PayloadView::Decisions(all_undelivered(request.control.seeded_decisions@)),
        ),
        !(step is PublishQueued) && !(step is PublishSubmitFailed) && !(step is PublishResumeFailed)
            && !(step is Settle) ==> event is None,
{
    match step {
        SubmitStep::PublishQueued { dispatch, .. } => {
            lemma_event_tells_of_its_dispatch(event->0, "RunQueued", dispatch, None, None, None);
        },
        SubmitStep::PublishSubmitFailed { dispatch, error, .. } => {
            lemma_event_tells_of_its_dispatch(
                event->0,
                "MailboxSubmitFailed",
                dispatch,
                Some("enqueue_failed"),
                Some(error.text()),
                None,
            );
        },
        SubmitStep::PublishResumeFailed { request, dispatch, error } => {
            let draft = event->0;
            assert(is_resume_failed_event(
                draft,
                dispatch,
                request.control.seeded_decisions@,
                "enqueue_failed",
                error,
            ));
            let payload = draft.payload->Fields_0;
            let expected = fields(payload@);
            lemma_field_is_told(draft, payload, expected, 6);
            lemma_field_is_told(draft, payload, expected, 7);
            lemma_field_is_told(draft, payload, expected, 8);
        },
        _ => {},
    }
}

/// A decision that was not delivered is told as it was made.
pub proof fn lemma_undelivered_decisions_are_told_as_made(decisions: Seq<SeededDecision>, i: int)
    requires
        0 <= i < decisions.len(),
    ensures
        all_undelivered(decisions).len() == decisions.len(),
        all_undelivered(decisions)[i].tool_call_id == decisions[i].tool_call_id,
        all_undelivered(decisions)[i].decision_id == decisions[i].resume.decision_id,
        all_undelivered(decisions)[i].action == decisions[i].resume.action,
        all_undelivered(decisions)[i].result == decisions[i].resume.result,
        all_undelivered(decisions)[i].resume_updated_at == decisions[i].resume.updated_at,
{
}

/// A recovery tells of each dispatch that it queues anew, and of each that it reclaimed
/// and that is queued again.
pub proof fn lemma_recovery_tells_of_the_queue(
    prepared: PreparedRecovery,
    queued: Option<EventDraft>,
    step: RecoverStep,
    event: Option<EventDraft>,
)
    requires
        is_prepared_event(prepared, queued),
        is_recover_event(step, event),
    ensures
        queued is Some <==> prepared.step is PublishQueued,
        prepared.step matches PreparedStep::PublishQueued { dispatch, .. } ==> is_of_dispatch(
            queued->0,
            "RunQueued"@,
            dispatch,
        ),
        event is Some ==> step is PublishRescheduled,
        step matches RecoverStep::PublishRescheduled { reclaimed, at } ==> (at < reclaimed@.len()
            ==> (event is Some <==> reclaimed@[at as int].status == RunDispatchStatus::Queued) && (
        event is Some ==> is_of_dispatch(event->0, "RunRescheduled"@, reclaimed@[at as int])
            && tells(
            event->0,
            "reason"@,
            PayloadView::Text("expired_lease_reclaimed"@),
        ))),
{
    if let PreparedStep::PublishQueued { dispatch, .. } = prepared.step {
        lemma_event_tells_of_its_dispatch(queued->0, "RunQueued", dispatch, None, None, None);
    }
    if let RecoverStep::PublishRescheduled { reclaimed, at } = step {
        if at < reclaimed@.len() && event is Some {
            lemma_event_tells_of_its_dispatch(
                event->0,
                "RunRescheduled",
                reclaimed@[at as int],
                Some("expired_lease_reclaimed"),
                None,
                None,
            );
        }
    }
}

/// Whether an event is of a kind and on a decision for a run.
pub open spec fn is_of_decision(
    draft: EventDraft,
    kind: Seq<char>,
    target: LiveRunTarget,
    tool_call_id: Seq<char>,
    resume: ToolCallResume,
) -> bool {
    &&& draft.kind@ == kind
    &&& draft.thread_id@ == target.thread_id@
    &&& draft.run_id@ == target.run_id@
    &&& draft.correlation_id@ == resume.decision_id@
    &&& draft.idempotency_key@ == kind + "/"@ + target.run_id@ + "/"@ + tool_call_id + "/"@
        + resume.decision_id@
    &&& tells(draft, "thread_id"@, PayloadView::Text(target.thread_id@))
    &&& tells(draft, "run_id"@, PayloadView::Text(target.run_id@))
    &&& tells(
        draft,
        "dispatch_id"@,
        match target.dispatch_id {
            Some(id) => PayloadView::Text(id@),
            None => PayloadView::Null,
        },
    )
    &&& tells(draft, "tool_call_id"@, PayloadView::Text(tool_call_id))
    &&& tells(draft, "decision_id"@, PayloadView::Text(resume.decision_id@))
    &&& tells(draft, "action"@, PayloadView::Action(resume.action))
    &&& tells(draft, "result"@, PayloadView::Json(resume.result))
    &&& tells(
        draft,
        "reason"@,
        match resume.reason {
            Some(reason) => PayloadView::Text(reason@),
            None => PayloadView::Null,
        },
    )
    &&& tells(draft, "resume_updated_at"@, PayloadView::Number(resume.updated_at))
}

/// The event of a decision that was received tells the decision and the way it took, and
/// the event of a permission that it resolved tells whether the permission was given.
pub proof fn lemma_decision_events_tell_the_decision(
    received: EventDraft,
    resolved: EventDraft,
    target: LiveRunTarget,
    tool_call_id: Seq<char>,
    resume: ToolCallResume,
    approved: bool,
    delivery_path: &'static str,
)
    requires
        is_decision_received(received, target, tool_call_id, resume, delivery_path),
        is_permission_resolved(resolved, target, tool_call_id, resume, approved, delivery_path),
    ensures
        is_of_decision(received, "MailboxDecisionReceived"@, target, tool_call_id, resume),
        tells(received, "delivery_path"@, PayloadView::Text(delivery_path@)),
        is_of_decision(resolved, "ToolPermissionResolved"@, target, tool_call_id, resume),
        tells(resolved, "approved"@, PayloadView::Flag(approved)),
        tells(resolved, "delivery_path"@, PayloadView::Text(delivery_path@)),
{
    lemma_received_tells_the_decision(received, target, tool_call_id, resume, delivery_path);
    let payload = resolved.payload->Fields_0;
    let expected = fields(payload@);
    lemma_field_is_told(resolved, payload, expected, 0);
    lemma_field_is_told(resolved, payload, expected, 1);
    lemma_field_is_told(resolved, payload, expected, 2);
    lemma_field_is_told(resolved, payload, expected, 3);
    lemma_field_is_told(resolved, payload, expected, 4);
    lemma_field_is_told(resolved, payload, expected, 5);
    lemma_field_is_told(resolved, payload, expected, 6);
    lemma_field_is_told(resolved, payload, expected, 7);
    lemma_field_is_told(resolved, payload, expected, 8);
    lemma_field_is_told(resolved, payload, expected, 9);
    lemma_field_is_told(resolved, payload, expected, 10);
}

proof fn lemma_received_tells_the_decision(
    received: EventDraft,
    target: LiveRunTarget,
    tool_call_id: Seq<char>,
    resume: ToolCallResume,
    delivery_path: &'static str,
)
    requires
        is_decision_received(received, target, tool_call_id, resume, delivery_path),
    ensures
        is_of_decision(received, "MailboxDecisionReceived"@, target, tool_call_id, resume),
        tells(received, "delivery_path"@, PayloadView::Text(delivery_path@)),
{
    let payload = received.payload->Fields_0;
    let expected = fields(payload@);
    lemma_field_is_told(received, payload, expected, 0);
    lemma_field_is_told(received, payload, expected, 1);
    lemma_field_is_told(received, payload, expected, 2);
    lemma_field_is_told(received, payload, expected, 3);
    lemma_field_is_told(received, payload, expected, 4);
    lemma_field_is_told(received, payload, expected, 5);
    lemma_field_is_told(received, payload, expected, 6);
    lemma_field_is_told(received, payload, expected, 7);
    lemma_field_is_told(received, payload, expected, 8);
    lemma_field_is_told(received, payload, expected, 9);
}

/// The event of a committed message tells the message: its place in the log, its id, who
/// said it, what it holds and which message it follows.
pub proof fn lemma_message_event_tells_the_message(
    draft: EventDraft,
    thread_id: Seq<char>,
    run_id: Seq<char>,
    messages: Seq<Message>,
    seq: u64,
)
    requires
        has_event(messages, seq as int),
        is_message_committed(draft, thread_id, run_id, messages, seq),
    ensures
        draft.kind@ == "MessageCommitted"@,
        draft.thread_id@ == thread_id,
        draft.run_id@ == run_id,
        draft.correlation_id@ == run_id,
        draft.idempotency_key@ == "MessageCommitted/"@ + thread_id + "/"@ + run_id + "/"@
            + messages[seq - 1].id->0@,
        tells(draft, "thread_id"@, PayloadView::Text(thread_id)),
        tells(draft, "run_id"@, PayloadView::Text(run_id)),
        tells(draft, "message_id"@, PayloadView::Text(messages[seq - 1].id->0@)),
        tells(draft, "message_seq"@, PayloadView::Number(seq)),
        tells(draft, "role"@, PayloadView::Role(messages[seq - 1].role)),
        tells(draft, "content_blocks"@, PayloadView::Blocks(messages[seq - 1].content@)),
        tells(
            draft,
            "parent_message_id"@,
            if seq >= 2 && messages[seq - 2].id is Some {
                PayloadView::Text(messages[seq - 2].id->0@)
            } else {
                PayloadView::Null
            },
        ),
        tells(
            draft,
            "message_kind"@,
            PayloadView::Text(
                match messages[seq - 1].role {
                    Role::User => if messages[seq - 1].visibility == Visibility::All {
                        "user_input"@
                    } else {
                        "internal_user_input"@
                    },
                    Role::Assistant => "assistant_output"@,
                    Role::Tool => "tool_result"@,
                    Role::System => if messages[seq - 1].visibility == Visibility::All {
                        "system"@
                    } else {
                        "internal_system"@
                    },
                },
            ),
        ),
{
    let payload = draft.payload->Fields_0;
    let expected = fields(payload@);
    lemma_field_is_told(draft, payload, expected, 0);
    lemma_field_is_told(draft, payload, expected, 1);
    lemma_field_is_told(draft, payload, expected, 2);
    lemma_field_is_told(draft, payload, expected, 3);
    lemma_field_is_told(draft, payload, expected, 4);
    lemma_field_is_told(draft, payload, expected, 5);
    lemma_field_is_told(draft, payload, expected, 6);
    lemma_field_is_told(draft, payload, expected, 7);
}

/// Messages with different ids have events with different keys.
pub proof fn lemma_message_keys_tell_messages_apart(
    thread_id: Seq<char>,
    run_id: Seq<char>,
    one: Seq<char>,
    other: Seq<char>,
)
    requires
        message_key(thread_id, run_id, one) == message_key(thread_id, run_id, other),
    ensures
        one == other,
{
    let head = "MessageCommitted/"@ + thread_id + "/"@ + run_id + "/"@;
    assert((head + one).skip(head.len() as int) =~= one);
    assert((head + other).skip(head.len() as int) =~= other);
}

/// Decisions with different ids on a tool call of a run have events with different keys.
pub proof fn lemma_decision_keys_tell_decisions_apart(
    kind: &'static str,
    run_id: Seq<char>,
    tool_call_id: Seq<char>,
    one: Seq<char>,
    other: Seq<char>,
)
    requires
        decision_event_key(kind, run_id, tool_call_id, one) == decision_event_key(
            kind,
            run_id,
            tool_call_id,
            other,
        ),
    ensures
        one == other,
{
    let head = kind@ + "/"@ + run_id + "/"@ + tool_call_id + "/"@;
    assert((head + one).skip(head.len() as int) =~= one);
    assert((head + other).skip(head.len() as int) =~= other);
}

/// A checkpoint of a range of the log has an event for each of its messages, in order,
/// and at the end one for the range, which tells its ends, how many messages it has and
/// their ids.
pub proof fn lemma_checkpoint_tells_the_range(
    drafts: Seq<EventDraft>,
    thread_id: Seq<char>,
    run_id: Seq<char>,
    messages: Seq<Message>,
    first: u64,
    last: u64,
)
    requires
        1 <= first <= last <= messages.len(),
        range_has_events(messages, first, last),
        is_checkpoint(drafts, thread_id, run_id, messages, first, last),
    ensures
        drafts.len() == last - first + 2,
        forall|i: int|
            0 <= i <= last - first ==> (#[trigger] drafts[i]).kind@ == "MessageCommitted"@ && tells(
                drafts[i],
                "message_seq"@,
                PayloadView::Number((first + i) as u64),
            ) && tells(
                drafts[i],
                "message_id"@,
                PayloadView::Text(messages[first + i - 1].id->0@),
            ),
        drafts.last().kind@ == "ThreadMessagesCheckpointed"@,
        drafts.last().thread_id@ == thread_id,
        drafts.last().run_id@ == run_id,
        drafts.last().idempotency_key@ == range_key(thread_id, run_id, first, last),
        tells(drafts.last(), "message_seq_start"@, PayloadView::Number(first)),
        tells(drafts.last(), "message_seq_end"@, PayloadView::Number(last)),
        tells(drafts.last(), "message_count"@, PayloadView::Number((last - first + 1) as u64)),
        exists|ids: Seq<Seq<char>>| #[trigger]
            tells(drafts.last(), "message_ids"@, PayloadView::Texts(ids)) && ids.len() == last
                - first + 1 && forall|i: int|
                0 <= i < ids.len() ==> #[trigger] ids[i] == messages[first + i - 1].id->0@,
{
    assert forall|i: int| 0 <= i <= last - first implies (#[trigger] drafts[i]).kind@
        == "MessageCommitted"@ && tells(
        drafts[i],
        "message_seq"@,
        PayloadView::Number((first + i) as u64),
    ) && tells(drafts[i], "message_id"@, PayloadView::Text(messages[first + i - 1].id->0@)) by {
        let seq = (first + i) as u64;
        assert(has_event(messages, first + i));
        lemma_message_event_tells_the_message(drafts[i], thread_id, run_id, messages, seq);
    }
    let part = messages.subrange(first - 1, last as int);
    assert forall|i: int| 0 <= i < part.len() implies (#[trigger] part[i]).id is Some by {
        assert(has_event(messages, first + i));
    }
    lemma_ids_are_those_of_the_messages(part);
    let ids = ids_of(part);
    assert(is_range_checkpointed(drafts.last(), thread_id, run_id, messages, first, last));
    let payload = drafts.last().payload->Fields_0;
    let expected = fields(payload@);
    lemma_field_is_told(drafts.last(), payload, expected, 2);
    lemma_field_is_told(drafts.last(), payload, expected, 3);
    lemma_field_is_told(drafts.last(), payload, expected, 4);
    lemma_field_is_told(drafts.last(), payload, expected, 5);
    assert(tells(drafts.last(), "message_ids"@, PayloadView::Texts(ids)));
    assert forall|i: int| 0 <= i < ids.len() implies #[trigger] ids[i] == messages[first + i
        - 1].id->0@ by {
        assert(ids[i] == part[i].id->0@);
    }
}

/// The key of a checkpoint tells apart two ranges of a run that begin together or that end
/// together, by the other end.
pub proof fn lemma_range_keys_tell_ranges_apart(
    thread_id: Seq<char>,
    run_id: Seq<char>,
    first: u64,
    other_first: u64,
    last: u64,
    other_last: u64,
)
    ensures
        range_key(thread_id, run_id, first, last) == range_key(
            thread_id,
            run_id,
            first,
            other_last,
        ) <==> last == other_last,
        range_key(thread_id, run_id, first, last) == range_key(
            thread_id,
            run_id,
            other_first,
            last,
        ) <==> first == other_first,
{
    let head = "ThreadMessagesCheckpointed/"@ + thread_id + "/"@ + run_id + "/"@;
    let from = decimal(first as nat);
    let other_from = decimal(other_first as nat);
    let to = decimal(last as nat);
    let other_to = decimal(other_last as nat);
    let start = head + from + "-"@;
    if start + to == start + other_to {
        assert((start + to).skip(start.len() as int) =~= to);
        assert((start + other_to).skip(start.len() as int) =~= other_to);
        lemma_numbers_are_told_apart(last as nat, other_last as nat);
    }
    let one = head + from + "-"@ + to;
    let other = head + other_from + "-"@ + to;
    if one == other {
        assert(one.len() == head.len() + from.len() + "-"@.len() + to.len());
        assert(other.len() == head.len() + other_from.len() + "-"@.len() + to.len());
        let end = (head.len() + from.len()) as int;
        assert(one.subrange(head.len() as int, end) =~= from);
        assert(other.subrange(head.len() as int, end) =~= other_from);
        lemma_numbers_are_told_apart(first as nat, other_first as nat);
    }
}

} // verus!
