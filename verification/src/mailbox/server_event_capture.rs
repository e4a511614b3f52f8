//! Canonical events that the mailbox authors: what each says, what it is
//! correlated with, and the key that makes publishing it again harmless.

use vstd::prelude::*;

use crate::activation::{ResumeDecisionAction, SeededDecision, ToolCallResume};
use crate::dispatch::{
    dispatch_status_label, status_label, LiveRunTarget, RunDispatch, RunDispatchStatus,
};
use crate::error::{Fault, StorageError};
use crate::mailbox::helpers::ids_of;
use crate::json::{json_flag, json_flags};
use crate::message::{text_view, texts, ContentBlock, Message, Role, Visibility};
use crate::text::{blank, decimal, decimal_text, is_blank, join5, join6, join7, same_text};

verus! {

/// The writer that the mailbox appends events as.
pub const EVENT_WRITER: &'static str = "mailbox";

/// What an event says of a decision that was not delivered.
#[derive(Debug, PartialEq)]
pub struct UndeliveredDecision {
    pub tool_call_id: String,
    pub decision_id: String,
    pub action: ResumeDecisionAction,
    pub result: serde_json::Value,
    pub resume_updated_at: u64,
}

/// A value in the payload of an event.
#[derive(Debug, PartialEq)]
pub enum PayloadValue {
    Null,
    Text(String),
    Label(&'static str),
    Number(u64),
    Flag(bool),
    Json(serde_json::Value),
    Texts(Vec<String>),
    Action(ResumeDecisionAction),
    Decisions(Vec<UndeliveredDecision>),
    Role(Role),
    Blocks(Vec<ContentBlock>),
}

/// What a value in the payload of an event holds.
#[verifier::ext_equal]
pub ghost enum PayloadView {
    Null,
    Text(Seq<char>),
    Number(u64),
    Flag(bool),
    Json(serde_json::Value),
    Texts(Seq<Seq<char>>),
    Action(ResumeDecisionAction),
    Decisions(Seq<UndeliveredDecision>),
    Role(Role),
    Blocks(Seq<ContentBlock>),
}

impl View for PayloadValue {
    type V = PayloadView;

    open spec fn view(&self) -> PayloadView {
        match *self {
            PayloadValue::Null => PayloadView::Null,
            PayloadValue::Text(t) => PayloadView::Text(t@),
            PayloadValue::Label(t) => PayloadView::Text(t@),
            PayloadValue::Number(n) => PayloadView::Number(n),
            PayloadValue::Flag(b) => PayloadView::Flag(b),
            PayloadValue::Json(v) => PayloadView::Json(v),
            PayloadValue::Texts(v) => PayloadView::Texts(texts(v@)),
            PayloadValue::Action(a) => PayloadView::Action(a),
            PayloadValue::Decisions(v) => PayloadView::Decisions(v@),
            PayloadValue::Role(r) => PayloadView::Role(r),
            PayloadValue::Blocks(v) => PayloadView::Blocks(v@),
        }
    }
}

/// A named value in the payload of an event.
#[derive(Debug, PartialEq)]
pub struct PayloadField {
    pub name: &'static str,
    pub value: PayloadValue,
}

/// The names and values of a payload.
pub open spec fn fields(payload: Seq<PayloadField>) -> Seq<(&'static str, PayloadView)> {
    payload.map_values(|f: PayloadField| (f.name, f.value@))
}

/// The payload of an event: named values, or the end of a run that failed, which
/// has neither an identity nor a result.
#[derive(Debug, PartialEq)]
pub enum EventPayload {
    Fields(Vec<PayloadField>),
    RunFinish { thread_id: String, run_id: String, error: String },
}

/// An event to be published, in the scope of a thread and of a run, visible to
/// all and written as [`EVENT_WRITER`].
#[derive(Debug, PartialEq)]
pub struct EventDraft {
    pub kind: &'static str,
    pub thread_id: String,
    pub run_id: String,
    pub payload: EventPayload,
    pub correlation_id: String,
    pub idempotency_key: String,
}

/// Whether a draft is of a kind, in the scope of a thread and a run, with the
/// given correlation id and key.
pub open spec fn is_draft(
    draft: EventDraft,
    kind: &'static str,
    thread_id: Seq<char>,
    run_id: Seq<char>,
    correlation_id: Seq<char>,
    key: Seq<char>,
) -> bool {
    &&& draft.kind == kind
    &&& draft.thread_id@ == thread_id
    &&& draft.run_id@ == run_id
    &&& draft.correlation_id@ == correlation_id
    &&& draft.idempotency_key@ == key
}

/// Whether the payload of a draft is of the given fields.
pub open spec fn has_fields(draft: EventDraft, expected: Seq<(&'static str, PayloadView)>) -> bool {
    draft.payload matches EventPayload::Fields(payload) && fields(payload@) == expected
}

/// An optional text in a payload.
pub open spec fn optional_text(t: Option<String>) -> PayloadView {
    match t {
        Some(s) => PayloadView::Text(s@),
        None => PayloadView::Null,
    }
}

fn text_or_null(t: &Option<String>) -> (r: PayloadValue)
    ensures
        r@ == optional_text(*t),
{
    match t {
        Some(s) => PayloadValue::Text(s.clone()),
        None => PayloadValue::Null,
    }
}

fn add_field(payload: &mut Vec<PayloadField>, name: &'static str, value: PayloadValue)
    ensures
        fields(final(payload)@) == fields(old(payload)@).push((name, value@)),
{
    payload.push(PayloadField { name, value });
    assert(fields(payload@) =~= fields(old(payload)@).push((name, value@)));
}

fn no_fields() -> (r: Vec<PayloadField>)
    ensures
        fields(r@) == Seq::<(&'static str, PayloadView)>::empty(),
{
    let r: Vec<PayloadField> = Vec::new();
    assert(fields(r@) =~= Seq::<(&'static str, PayloadView)>::empty());
    r
}

/// The key of an event on a dispatch: its kind, the dispatch, and the attempt.
pub open spec fn dispatch_event_key(kind: &'static str, dispatch: RunDispatch) -> Seq<char> {
    kind@ + "/"@ + dispatch.dispatch_id@ + "/"@ + decimal(dispatch.attempt_count as nat)
}

fn key_of_dispatch_event(kind: &'static str, dispatch: &RunDispatch) -> (r: String)
    ensures
        r@ == dispatch_event_key(kind, *dispatch),
{
    join5(
        kind,
        "/",
        dispatch.dispatch_id.as_str(),
        "/",
        decimal_text(dispatch.attempt_count as u64).as_str(),
    )
}

/// What every event on a dispatch says of it.
pub open spec fn dispatch_fields(dispatch: RunDispatch) -> Seq<(&'static str, PayloadView)> {
    seq![
        ("thread_id", PayloadView::Text(dispatch.thread_id@)),
        ("run_id", PayloadView::Text(dispatch.run_id@)),
        ("dispatch_id", PayloadView::Text(dispatch.dispatch_id@)),
        ("dispatch_epoch", PayloadView::Number(dispatch.dispatch_epoch)),
        ("attempt_count", PayloadView::Number(dispatch.attempt_count as u64)),
        ("status", PayloadView::Text(status_label(dispatch.status)@)),
    ]
}

fn fields_of_dispatch(dispatch: &RunDispatch) -> (r: Vec<PayloadField>)
    ensures
        fields(r@) == dispatch_fields(*dispatch),
{
    let mut payload = no_fields();
    add_field(&mut payload, "thread_id", PayloadValue::Text(dispatch.thread_id.clone()));
    add_field(&mut payload, "run_id", PayloadValue::Text(dispatch.run_id.clone()));
    add_field(&mut payload, "dispatch_id", PayloadValue::Text(dispatch.dispatch_id.clone()));
    add_field(&mut payload, "dispatch_epoch", PayloadValue::Number(dispatch.dispatch_epoch));
    add_field(&mut payload, "attempt_count", PayloadValue::Number(dispatch.attempt_count as u64));
    add_field(&mut payload, "status", PayloadValue::Label(dispatch_status_label(dispatch.status)));
    assert(fields(payload@) =~= dispatch_fields(*dispatch));
    payload
}

/// The fields of an event on a dispatch: what every one says, the times of the
/// dispatch, and whichever of a reason, an error and a timeout the event has.
pub open spec fn dispatch_event_fields(
    dispatch: RunDispatch,
    reason: Option<&'static str>,
    error: Option<Seq<char>>,
    timeout_ms: Option<u64>,
) -> Seq<(&'static str, PayloadView)> {
    dispatch_fields(dispatch) + seq![
        ("available_at", PayloadView::Number(dispatch.available_at)),
        ("created_at", PayloadView::Number(dispatch.created_at)),
        ("updated_at", PayloadView::Number(dispatch.updated_at)),
    ] + (match reason {
        Some(text) => seq![("reason", PayloadView::Text(text@))],
        None => seq![],
    }) + (match error {
        Some(text) => seq![("error", PayloadView::Text(text))],
        None => seq![],
    }) + (match timeout_ms {
        Some(ms) => seq![("timeout_ms", PayloadView::Number(ms))],
        None => seq![],
    })
}

/// Whether a draft is the event of a kind on a dispatch.
pub open spec fn is_dispatch_event(
    draft: EventDraft,
    kind: &'static str,
    dispatch: RunDispatch,
    reason: Option<&'static str>,
    error: Option<Seq<char>>,
    timeout_ms: Option<u64>,
) -> bool {
    &&& is_draft(
        draft,
        kind,
        dispatch.thread_id@,
        dispatch.run_id@,
        dispatch.dispatch_id@,
        dispatch_event_key(kind, dispatch),
    )
    &&& has_fields(draft, dispatch_event_fields(dispatch, reason, error, timeout_ms))
}

/// The event of a kind on a dispatch.
pub fn record_mailbox_dispatch_event_inner(
    kind: &'static str,
    dispatch: &RunDispatch,
    reason: Option<&'static str>,
    error: Option<String>,
    timeout_ms: Option<u64>,
) -> (r: EventDraft)
    ensures
        is_dispatch_event(r, kind, *dispatch, reason, text_view(error), timeout_ms),
{
    let mut payload = fields_of_dispatch(dispatch);
    add_field(&mut payload, "available_at", PayloadValue::Number(dispatch.available_at));
    add_field(&mut payload, "created_at", PayloadValue::Number(dispatch.created_at));
    add_field(&mut payload, "updated_at", PayloadValue::Number(dispatch.updated_at));
    if let Some(text) = reason {
        add_field(&mut payload, "reason", PayloadValue::Label(text));
    }
    let ghost error_text = text_view(error);
    if let Some(text) = error {
        add_field(&mut payload, "error", PayloadValue::Text(text));
    }
    if let Some(ms) = timeout_ms {
        add_field(&mut payload, "timeout_ms", PayloadValue::Number(ms));
    }
    assert(fields(payload@) =~= dispatch_event_fields(*dispatch, reason, error_text, timeout_ms));
    EventDraft {
        kind,
        thread_id: dispatch.thread_id.clone(),
        run_id: dispatch.run_id.clone(),
        payload: EventPayload::Fields(payload),
        correlation_id: dispatch.dispatch_id.clone(),
        idempotency_key: key_of_dispatch_event(kind, dispatch),
    }
}

/// The event of a kind on a dispatch, with nothing to add.
pub fn record_mailbox_dispatch_event(kind: &'static str, dispatch: &RunDispatch) -> (r: EventDraft)
    ensures
        is_dispatch_event(r, kind, *dispatch, None, None, None),
{
    record_mailbox_dispatch_event_inner(kind, dispatch, None, None, None)
}

/// The event of a wait that timed out.
pub fn record_mailbox_timeout(
    dispatch: &RunDispatch,
    reason: &'static str,
    timeout_ms: u64,
) -> (r: EventDraft)
    ensures
        is_dispatch_event(r, "MailboxTimeout", *dispatch, Some(reason), None, Some(timeout_ms)),
{
    record_mailbox_dispatch_event_inner(
        "MailboxTimeout",
        dispatch,
        Some(reason),
        None,
        Some(timeout_ms),
    )
}

/// The event of a dispatch that could not be enqueued.
pub fn record_mailbox_submit_failed(dispatch: &RunDispatch, error: &StorageError) -> (r: EventDraft)
    ensures
        is_dispatch_event(
            r,
            "MailboxSubmitFailed",
            *dispatch,
            Some("enqueue_failed"),
            Some(error.text()),
            None,
        ),
{
    record_mailbox_dispatch_event_inner(
        "MailboxSubmitFailed",
        dispatch,
        Some("enqueue_failed"),
        Some(error.to_text()),
        None,
    )
}

/// Whether an event is the one of a dispatch that went back to the queue; there is
/// none where it did not.
pub open spec fn is_rescheduled_event(
    event: Option<EventDraft>,
    dispatch: RunDispatch,
    reason: &'static str,
) -> bool {
    &&& (event is Some) == (dispatch.status == RunDispatchStatus::Queued)
    &&& event matches Some(draft) ==> is_dispatch_event(
        draft,
        "RunRescheduled",
        dispatch,
        Some(reason),
        None,
        None,
    )
}

/// The event of a dispatch that went back to the queue; none where it did not.
pub fn record_run_rescheduled_dispatch(dispatch: &RunDispatch, reason: &'static str) -> (r: Option<
    EventDraft,
>)
    ensures
        is_rescheduled_event(r, *dispatch, reason),
{
    if dispatch.status == RunDispatchStatus::Queued {
        Some(
            record_mailbox_dispatch_event_inner("RunRescheduled", dispatch, Some(reason), None, None),
        )
    } else {
        None
    }
}

/// The reason of the event of a dispatch whose expired lease was reclaimed.
pub const EXPIRED_LEASE_RECLAIMED: &'static str = "expired_lease_reclaimed";

/// Whether a draft is the event of a run that the mailbox ends with an error.
pub open spec fn is_errored_event(draft: EventDraft, dispatch: RunDispatch, error: Seq<char>) -> bool {
    &&& is_draft(
        draft,
        "RunErrored",
        dispatch.thread_id@,
        dispatch.run_id@,
        dispatch.dispatch_id@,
        dispatch_event_key("RunErrored", dispatch),
    )
    &&& draft.payload matches EventPayload::RunFinish { thread_id, run_id, error: text }
        && thread_id == dispatch.thread_id && run_id == dispatch.run_id && text@ == error
}

/// The event of a run that the mailbox ends with an error.
pub fn record_run_errored(dispatch: &RunDispatch, error: &str) -> (r: EventDraft)
    ensures
        is_errored_event(r, *dispatch, error@),
{
    EventDraft {
        kind: "RunErrored",
        thread_id: dispatch.thread_id.clone(),
        run_id: dispatch.run_id.clone(),
        payload: EventPayload::RunFinish {
            thread_id: dispatch.thread_id.clone(),
            run_id: dispatch.run_id.clone(),
            error: error.to_owned(),
        },
        correlation_id: dispatch.dispatch_id.clone(),
        idempotency_key: key_of_dispatch_event("RunErrored", dispatch),
    }
}

/// A decision as the event tells it that the decision was not delivered.
pub open spec fn undelivered(decision: SeededDecision) -> UndeliveredDecision {
    UndeliveredDecision {
        tool_call_id: decision.tool_call_id,
        decision_id: decision.resume.decision_id,
        action: decision.resume.action,
        result: decision.resume.result,
        resume_updated_at: decision.resume.updated_at,
    }
}

/// Decisions as the event tells them that they were not delivered, in order.
pub open spec fn all_undelivered(decisions: Seq<SeededDecision>) -> Seq<UndeliveredDecision> {
    decisions.map_values(|decision: SeededDecision| undelivered(decision))
}

fn undelivered_decisions(decisions: &Vec<SeededDecision>) -> (r: Vec<UndeliveredDecision>)
    ensures
        r@ == all_undelivered(decisions@),
{
    let mut out: Vec<UndeliveredDecision> = Vec::new();
    let mut i: usize = 0;
    while i < decisions.len()
        invariant
            i <= decisions@.len(),
            out@ =~= all_undelivered(decisions@.take(i as int)),
        decreases decisions@.len() - i,
    {
        let decision = &decisions[i];
        out.push(
            UndeliveredDecision {
                tool_call_id: decision.tool_call_id.clone(),
                decision_id: decision.resume.decision_id.clone(),
                action: decision.resume.action,
                result: decision.resume.result.clone(),
                resume_updated_at: decision.resume.updated_at,
            },
        );
        i = i + 1;
    }
    assert(decisions@.take(i as int) =~= decisions@);
    out
}

/// Whether a draft is the event of decisions that were not delivered.
pub open spec fn is_resume_failed_event(
    draft: EventDraft,
    dispatch: RunDispatch,
    decisions: Seq<SeededDecision>,
    reason: &'static str,
    error: StorageError,
) -> bool {
    &&& is_draft(
        draft,
        "MailboxResumeFailed",
        dispatch.thread_id@,
        dispatch.run_id@,
        dispatch.dispatch_id@,
        dispatch_event_key("MailboxResumeFailed", dispatch),
    )
    &&& has_fields(
        draft,
        dispatch_fields(dispatch) + seq![
            ("reason", PayloadView::Text(reason@)),
            ("error", PayloadView::Text(error.text())),
            ("decisions", PayloadView::Decisions(all_undelivered(decisions))),
        ],
    )
}

/// The event of decisions that were not delivered because their dispatch could
/// not be enqueued.
pub fn record_mailbox_resume_failed(
    dispatch: &RunDispatch,
    decisions: &Vec<SeededDecision>,
    reason: &'static str,
    error: &StorageError,
) -> (r: EventDraft)
    ensures
        is_resume_failed_event(r, *dispatch, decisions@, reason, *error),
{
    let mut payload = fields_of_dispatch(dispatch);
    add_field(&mut payload, "reason", PayloadValue::Label(reason));
    add_field(&mut payload, "error", PayloadValue::Text(error.to_text()));
    add_field(&mut payload, "decisions", PayloadValue::Decisions(undelivered_decisions(decisions)));
    assert(fields(payload@) =~= dispatch_fields(*dispatch) + seq![
        ("reason", PayloadView::Text(reason@)),
        ("error", PayloadView::Text(error.text())),
        ("decisions", PayloadView::Decisions(all_undelivered(decisions@))),
    ]);
    EventDraft {
        kind: "MailboxResumeFailed",
        thread_id: dispatch.thread_id.clone(),
        run_id: dispatch.run_id.clone(),
        payload: EventPayload::Fields(payload),
        correlation_id: dispatch.dispatch_id.clone(),
        idempotency_key: key_of_dispatch_event("MailboxResumeFailed", dispatch),
    }
}

/// The key of an event on a decision: its kind, the run, the tool call, and the
/// decision.
pub open spec fn decision_event_key(
    kind: &'static str,
    run_id: Seq<char>,
    tool_call_id: Seq<char>,
    decision_id: Seq<char>,
) -> Seq<char> {
    kind@ + "/"@ + run_id + "/"@ + tool_call_id + "/"@ + decision_id
}

/// What an event on a decision begins with.
pub open spec fn decision_head(
    thread_id: Seq<char>,
    run_id: Seq<char>,
    dispatch_id: Option<String>,
    tool_call_id: Seq<char>,
    resume: ToolCallResume,
) -> Seq<(&'static str, PayloadView)> {
    seq![
        ("thread_id", PayloadView::Text(thread_id)),
        ("run_id", PayloadView::Text(run_id)),
        ("dispatch_id", optional_text(dispatch_id)),
        ("tool_call_id", PayloadView::Text(tool_call_id)),
        ("decision_id", PayloadView::Text(resume.decision_id@)),
        ("action", PayloadView::Action(resume.action)),
    ]
}

/// What an event on a decision ends with.
pub open spec fn decision_tail(resume: ToolCallResume, delivery_path: &'static str) -> Seq<
    (&'static str, PayloadView),
> {
    seq![
        ("result", PayloadView::Json(resume.result)),
        ("reason", optional_text(resume.reason)),
        ("resume_updated_at", PayloadView::Number(resume.updated_at)),
        ("delivery_path", PayloadView::Text(delivery_path@)),
    ]
}

fn decision_event(
    kind: &'static str,
    target: &LiveRunTarget,
    tool_call_id: &str,
    resume: &ToolCallResume,
    approved: Option<bool>,
    delivery_path: &'static str,
) -> (r: EventDraft)
    ensures
        is_draft(
            r,
            kind,
            target.thread_id@,
            target.run_id@,
            resume.decision_id@,
            decision_event_key(kind, target.run_id@, tool_call_id@, resume.decision_id@),
        ),
        has_fields(
            r,
            decision_head(
                target.thread_id@,
                target.run_id@,
                target.dispatch_id,
                tool_call_id@,
                *resume,
            ) + (match approved {
                Some(flag) => seq![("approved", PayloadView::Flag(flag))],
                None => seq![],
            }) + decision_tail(*resume, delivery_path),
        ),
{
    let mut payload = no_fields();
    add_field(&mut payload, "thread_id", PayloadValue::Text(target.thread_id.clone()));
    add_field(&mut payload, "run_id", PayloadValue::Text(target.run_id.clone()));
    add_field(&mut payload, "dispatch_id", text_or_null(&target.dispatch_id));
    add_field(&mut payload, "tool_call_id", PayloadValue::Text(tool_call_id.to_owned()));
    add_field(&mut payload, "decision_id", PayloadValue::Text(resume.decision_id.clone()));
    add_field(&mut payload, "action", PayloadValue::Action(resume.action));
    if let Some(flag) = approved {
        add_field(&mut payload, "approved", PayloadValue::Flag(flag));
    }
    add_field(&mut payload, "result", PayloadValue::Json(resume.result.clone()));
    add_field(&mut payload, "reason", text_or_null(&resume.reason));
    add_field(&mut payload, "resume_updated_at", PayloadValue::Number(resume.updated_at));
    add_field(&mut payload, "delivery_path", PayloadValue::Label(delivery_path));
    assert(fields(payload@) =~= decision_head(
        target.thread_id@,
        target.run_id@,
        target.dispatch_id,
        tool_call_id@,
        *resume,
    ) + (match approved {
        Some(flag) => seq![("approved", PayloadView::Flag(flag))],
        None => seq![],
    }) + decision_tail(*resume, delivery_path));
    EventDraft {
        kind,
        thread_id: target.thread_id.clone(),
        run_id: target.run_id.clone(),
        payload: EventPayload::Fields(payload),
        correlation_id: resume.decision_id.clone(),
        idempotency_key: join7(
            kind,
            "/",
            target.run_id.as_str(),
            "/",
            tool_call_id,
            "/",
            resume.decision_id.as_str(),
        ),
    }
}

/// Whether a draft is the event of a decision that was received.
pub open spec fn is_decision_received(
    draft: EventDraft,
    target: LiveRunTarget,
    tool_call_id: Seq<char>,
    resume: ToolCallResume,
    delivery_path: &'static str,
) -> bool {
    &&& is_draft(
        draft,
        "MailboxDecisionReceived",
        target.thread_id@,
        target.run_id@,
        resume.decision_id@,
        decision_event_key(
            "MailboxDecisionReceived",
            target.run_id@,
            tool_call_id,
            resume.decision_id@,
        ),
    )
    &&& has_fields(
        draft,
        decision_head(target.thread_id@, target.run_id@, target.dispatch_id, tool_call_id, resume)
            + decision_tail(resume, delivery_path),
    )
}

/// Whether a draft is the event of a permission that a decision resolved.
pub open spec fn is_permission_resolved(
    draft: EventDraft,
    target: LiveRunTarget,
    tool_call_id: Seq<char>,
    resume: ToolCallResume,
    approved: bool,
    delivery_path: &'static str,
) -> bool {
    &&& is_draft(
        draft,
        "ToolPermissionResolved",
        target.thread_id@,
        target.run_id@,
        resume.decision_id@,
        decision_event_key(
            "ToolPermissionResolved",
            target.run_id@,
            tool_call_id,
            resume.decision_id@,
        ),
    )
    &&& has_fields(
        draft,
        decision_head(target.thread_id@, target.run_id@, target.dispatch_id, tool_call_id, resume)
            + seq![("approved", PayloadView::Flag(approved))] + decision_tail(resume, delivery_path),
    )
}

/// The event of a permission that a decision resolved: there is one exactly where
/// the decision's result says under `approved` whether it was given.
pub fn record_tool_permission_resolved(
    target: &LiveRunTarget,
    tool_call_id: &str,
    resume: &ToolCallResume,
    delivery_path: &'static str,
) -> (r: Option<EventDraft>)
    ensures
        (r is Some) == json_flags(resume.result).dom().contains("approved"@),
        r matches Some(draft) ==> is_permission_resolved(
            draft,
            *target,
            tool_call_id@,
            *resume,
            json_flags(resume.result)["approved"@],
            delivery_path,
        ),
{
    let approved = json_flag(&resume.result, "approved");
    permission_resolved_event(target, tool_call_id, resume, approved, delivery_path)
}

/// The event of a permission that was resolved to `approved`, where it was.
pub fn permission_resolved_event(
    target: &LiveRunTarget,
    tool_call_id: &str,
    resume: &ToolCallResume,
    approved: Option<bool>,
    delivery_path: &'static str,
) -> (r: Option<EventDraft>)
    ensures
        (r is Some) == (approved is Some),
        r matches Some(draft) ==> is_permission_resolved(
            draft,
            *target,
            tool_call_id@,
            *resume,
            approved->0,
            delivery_path,
        ),
{
    match approved {
        Some(flag) => Some(
            decision_event(
                "ToolPermissionResolved",
                target,
                tool_call_id,
                resume,
                Some(flag),
                delivery_path,
            ),
        ),
        None => None,
    }
}

/// The event of a decision that was received.
pub fn decision_received_event(
    target: &LiveRunTarget,
    tool_call_id: &str,
    resume: &ToolCallResume,
    delivery_path: &'static str,
) -> (r: EventDraft)
    ensures
        is_decision_received(r, *target, tool_call_id@, *resume, delivery_path),
{
    let draft = decision_event(
        "MailboxDecisionReceived",
        target,
        tool_call_id,
        resume,
        None,
        delivery_path,
    );
    assert(decision_head(
        target.thread_id@,
        target.run_id@,
        target.dispatch_id,
        tool_call_id@,
        *resume,
    ) + Seq::<(&'static str, PayloadView)>::empty() + decision_tail(*resume, delivery_path)
        =~= decision_head(
        target.thread_id@,
        target.run_id@,
        target.dispatch_id,
        tool_call_id@,
        *resume,
    ) + decision_tail(*resume, delivery_path));
    draft
}

/// The events of a decision that was delivered: that it was received, and the
/// permission it resolved, where it resolved one.
pub fn record_mailbox_decision_received(
    target: &LiveRunTarget,
    tool_call_id: &str,
    resume: &ToolCallResume,
    delivery_path: &'static str,
) -> (r: (EventDraft, Option<EventDraft>))
    ensures
        is_decision_received(r.0, *target, tool_call_id@, *resume, delivery_path),
        (r.1 is Some) == json_flags(resume.result).dom().contains("approved"@),
        r.1 matches Some(draft) ==> is_permission_resolved(
            draft,
            *target,
            tool_call_id@,
            *resume,
            json_flags(resume.result)["approved"@],
            delivery_path,
        ),
{
    let received = decision_received_event(target, tool_call_id, resume, delivery_path);
    let resolved = record_tool_permission_resolved(target, tool_call_id, resume, delivery_path);
    (received, resolved)
}

/// The kind of a message in events, by who it is from and who sees it.
pub open spec fn kind_of_message(role: Role, visibility: Visibility) -> &'static str {
    match (role, visibility) {
        (Role::User, Visibility::All) => "user_input",
        (Role::User, Visibility::Internal) => "internal_user_input",
        (Role::Assistant, _) => "assistant_output",
        (Role::Tool, _) => "tool_result",
        (Role::System, Visibility::All) => "system",
        (Role::System, Visibility::Internal) => "internal_system",
    }
}

/// The kind of a message in events.
pub fn message_kind(message: &Message) -> (r: &'static str)
    ensures
        r == kind_of_message(message.role, message.visibility),
{
    match (message.role, message.visibility) {
        (Role::User, Visibility::All) => "user_input",
        (Role::User, Visibility::Internal) => "internal_user_input",
        (Role::Assistant, _) => "assistant_output",
        (Role::Tool, _) => "tool_result",
        (Role::System, Visibility::All) => "system",
        (Role::System, Visibility::Internal) => "internal_system",
    }
}

/// Whether the log holds a message with the sequence number, and it has an id.
pub open spec fn has_event(messages: Seq<Message>, seq: int) -> bool {
    &&& 1 <= seq <= messages.len()
    &&& messages[seq - 1].id matches Some(id) && !is_blank(id@)
}

/// The fault of a sequence number for which no event can be written.
pub open spec fn checkpoint_fault(
    thread_id: String,
    run_id: String,
    messages: Seq<Message>,
    first: u64,
    last: u64,
    seq: u64,
) -> Fault {
    if 1 <= seq <= messages.len() {
        Fault::CheckpointMessageId { seq, thread_id, run_id }
    } else {
        Fault::CheckpointRange { first, last, thread_id, run_id, count: messages.len() as u64 }
    }
}

fn message_has_event(messages: &Vec<Message>, seq: u64) -> (r: bool)
    ensures
        r == has_event(messages@, seq as int),
{
    if seq == 0 || seq > messages.len() as u64 {
        return false;
    }
    match &messages[(seq - 1) as usize].id {
        Some(id) => !blank(id.as_str()),
        None => false,
    }
}

/// Check that every sequence number of a range has a message with an id. The
/// first that has none is the fault.
pub fn validate_checkpoint_event_range(
    thread_id: &String,
    run_id: &String,
    messages: &Vec<Message>,
    first_new_seq: u64,
    last_new_seq: u64,
) -> (r: Result<(), Fault>)
    ensures
        match r {
            Ok(_) => forall|seq: int|
                first_new_seq <= seq <= last_new_seq ==> #[trigger] has_event(messages@, seq),
            Err(fault) => exists|seq: u64|
                {
                    &&& first_new_seq <= seq <= last_new_seq
                    &&& !(#[trigger] has_event(messages@, seq as int))
                    &&& forall|before: int|
                        first_new_seq <= before < seq ==> #[trigger] has_event(messages@, before)
                    &&& fault == checkpoint_fault(
                        *thread_id,
                        *run_id,
                        messages@,
                        first_new_seq,
                        last_new_seq,
                        seq,
                    )
                },
        },
{
    if first_new_seq > last_new_seq {
        return Ok(());
    }
    let mut seq: u64 = first_new_seq;
    loop
        invariant
            first_new_seq <= seq <= last_new_seq,
            forall|before: int|
                first_new_seq <= before < seq ==> #[trigger] has_event(messages@, before),
        ensures
            seq == last_new_seq,
            forall|k: int|
                first_new_seq <= k <= last_new_seq ==> #[trigger] has_event(messages@, k),
        decreases last_new_seq - seq,
    {
        if !message_has_event(messages, seq) {
            assert(!has_event(messages@, seq as int));
            if seq == 0 || seq > messages.len() as u64 {
                return Err(
                    Fault::CheckpointRange {
                        first: first_new_seq,
                        last: last_new_seq,
                        thread_id: thread_id.clone(),
                        run_id: run_id.clone(),
                        count: messages.len() as u64,
                    },
                );
            }
            return Err(
                Fault::CheckpointMessageId {
                    seq,
                    thread_id: thread_id.clone(),
                    run_id: run_id.clone(),
                },
            );
        }
        if seq == last_new_seq {
            break ;
        }
        seq = seq + 1;
    }
    Ok(())
}

/// The key of the event of a committed message.
pub open spec fn message_key(thread_id: Seq<char>, run_id: Seq<char>, message_id: Seq<char>) -> Seq<
    char,
> {
    "MessageCommitted/"@ + thread_id + "/"@ + run_id + "/"@ + message_id
}

/// The id of the message before one, where there is one.
pub open spec fn parent_message(messages: Seq<Message>, seq: u64) -> PayloadView {
    if 2 <= seq <= messages.len() + 1 {
        optional_text(messages[seq - 2].id)
    } else {
        PayloadView::Null
    }
}

/// Whether a draft is the event of the committed message with a sequence number.
pub open spec fn is_message_committed(
    draft: EventDraft,
    thread_id: Seq<char>,
    run_id: Seq<char>,
    messages: Seq<Message>,
    seq: u64,
) -> bool {
    let message = messages[seq - 1];
    let message_id = message.id->0@;
    &&& is_draft(
        draft,
        "MessageCommitted",
        thread_id,
        run_id,
        run_id,
        message_key(thread_id, run_id, message_id),
    )
    &&& has_fields(
        draft,
        seq![
            ("thread_id", PayloadView::Text(thread_id)),
            ("run_id", PayloadView::Text(run_id)),
            ("message_id", PayloadView::Text(message_id)),
            ("message_seq", PayloadView::Number(seq)),
            ("role", PayloadView::Role(message.role)),
            ("content_blocks", PayloadView::Blocks(message.content@)),
            (
                "message_kind",
                PayloadView::Text(kind_of_message(message.role, message.visibility)@),
            ),
            ("parent_message_id", parent_message(messages, seq)),
        ],
    )
}

fn copy_blocks(blocks: &Vec<ContentBlock>) -> (r: Vec<ContentBlock>)
    ensures
        r@ == blocks@,
{
    let mut out: Vec<ContentBlock> = Vec::new();
    let mut i: usize = 0;
    while i < blocks.len()
        invariant
            i <= blocks@.len(),
            out@ =~= blocks@.take(i as int),
        decreases blocks@.len() - i,
    {
        out.push(blocks[i].clone());
        i = i + 1;
    }
    assert(out@ =~= blocks@);
    out
}

/// The event of the committed message with a sequence number: there is one where
/// the log has such a message and it has an id.
pub fn record_message_committed(
    thread_id: &String,
    run_id: &String,
    messages: &Vec<Message>,
    seq: u64,
) -> (r: Option<EventDraft>)
    ensures
        (r is Some) == has_event(messages@, seq as int),
        r matches Some(draft) ==> is_message_committed(
            draft,
            thread_id@,
            run_id@,
            messages@,
            seq,
        ),
{
    if !message_has_event(messages, seq) {
        return None;
    }
    let count: usize = messages.len();
    assert(seq <= count);
    let index: usize = (seq - 1) as usize;
    let message = &messages[index];
    let message_id = match &message.id {
        Some(id) => id.clone(),
        None => String::new(),
    };
    let parent = if index >= 1 {
        text_or_null(&messages[index - 1].id)
    } else {
        PayloadValue::Null
    };
    let mut payload = no_fields();
    add_field(&mut payload, "thread_id", PayloadValue::Text(thread_id.clone()));
    add_field(&mut payload, "run_id", PayloadValue::Text(run_id.clone()));
    add_field(&mut payload, "message_id", PayloadValue::Text(message_id.clone()));
    add_field(&mut payload, "message_seq", PayloadValue::Number(seq));
    add_field(&mut payload, "role", PayloadValue::Role(message.role));
    add_field(&mut payload, "content_blocks", PayloadValue::Blocks(copy_blocks(&message.content)));
    add_field(&mut payload, "message_kind", PayloadValue::Label(message_kind(message)));
    add_field(&mut payload, "parent_message_id", parent);
    assert(fields(payload@) =~= seq![
        ("thread_id", PayloadView::Text(thread_id@)),
        ("run_id", PayloadView::Text(run_id@)),
        ("message_id", PayloadView::Text(message_id@)),
        ("message_seq", PayloadView::Number(seq)),
        ("role", PayloadView::Role(message.role)),
        ("content_blocks", PayloadView::Blocks(message.content@)),
        ("message_kind", PayloadView::Text(kind_of_message(message.role, message.visibility)@)),
        ("parent_message_id", parent_message(messages@, seq)),
    ]);
    Some(
        EventDraft {
            kind: "MessageCommitted",
            thread_id: thread_id.clone(),
            run_id: run_id.clone(),
            payload: EventPayload::Fields(payload),
            correlation_id: run_id.clone(),
            idempotency_key: join6(
                "MessageCommitted/",
                thread_id.as_str(),
                "/",
                run_id.as_str(),
                "/",
                message_id.as_str(),
            ),
        },
    )
}

/// The key of the event of a checkpointed range.
pub open spec fn range_key(thread_id: Seq<char>, run_id: Seq<char>, first: u64, last: u64) -> Seq<
    char,
> {
    "ThreadMessagesCheckpointed/"@ + thread_id + "/"@ + run_id + "/"@ + decimal(first as nat) + "-"@
        + decimal(last as nat)
}

/// Whether a draft is the event of a checkpointed range of the log.
pub open spec fn is_range_checkpointed(
    draft: EventDraft,
    thread_id: Seq<char>,
    run_id: Seq<char>,
    messages: Seq<Message>,
    first: u64,
    last: u64,
) -> bool {
    let ids = ids_of(messages.subrange(first - 1, last as int));
    &&& is_draft(
        draft,
        "ThreadMessagesCheckpointed",
        thread_id,
        run_id,
        run_id,
        range_key(thread_id, run_id, first, last),
    )
    &&& has_fields(
        draft,
        seq![
            ("thread_id", PayloadView::Text(thread_id)),
            ("run_id", PayloadView::Text(run_id)),
            ("message_seq_start", PayloadView::Number(first)),
            ("message_seq_end", PayloadView::Number(last)),
            ("message_count", PayloadView::Number(ids.len() as u64)),
            ("message_ids", PayloadView::Texts(ids)),
        ],
    )
}

fn ids_in_range(messages: &Vec<Message>, first: u64, last: u64) -> (r: Vec<String>)
    requires
        1 <= first <= last <= messages@.len(),
    ensures
        texts(r@) == ids_of(messages@.subrange(first - 1, last as int)),
{
    let mut out: Vec<String> = Vec::new();
    let count: usize = messages.len();
    assert(last <= count);
    let from: usize = (first - 1) as usize;
    let to: usize = last as usize;
    let mut i: usize = from;
    assert(texts(out@) =~= ids_of(messages@.subrange(from as int, from as int)));
    while i < to
        invariant
            from <= i <= to <= messages@.len(),
            texts(out@) == ids_of(messages@.subrange(from as int, i as int)),
        decreases to - i,
    {
        proof {
            let longer = messages@.subrange(from as int, i as int + 1);
            assert(longer.drop_last() =~= messages@.subrange(from as int, i as int));
            assert(longer.last() == messages@[i as int]);
        }
        match &messages[i].id {
            Some(id) => {
                let ghost before = out@;
                out.push(id.clone());
                assert(texts(out@) =~= texts(before).push(id@));
            },
            None => {},
        }
        i = i + 1;
    }
    out
}

/// The event of a checkpointed range of the log.
fn record_thread_messages_checkpointed(
    thread_id: &String,
    run_id: &String,
    messages: &Vec<Message>,
    first_new_seq: u64,
    last_new_seq: u64,
) -> (r: EventDraft)
    requires
        1 <= first_new_seq <= last_new_seq <= messages@.len(),
    ensures
        is_range_checkpointed(r, thread_id@, run_id@, messages@, first_new_seq, last_new_seq),
{
    let ids = ids_in_range(messages, first_new_seq, last_new_seq);
    let ghost listed = ids_of(messages@.subrange(first_new_seq - 1, last_new_seq as int));
    let mut payload = no_fields();
    add_field(&mut payload, "thread_id", PayloadValue::Text(thread_id.clone()));
    add_field(&mut payload, "run_id", PayloadValue::Text(run_id.clone()));
    add_field(&mut payload, "message_seq_start", PayloadValue::Number(first_new_seq));
    add_field(&mut payload, "message_seq_end", PayloadValue::Number(last_new_seq));
    add_field(&mut payload, "message_count", PayloadValue::Number(ids.len() as u64));
    assert(texts(ids@).len() == ids@.len());
    add_field(&mut payload, "message_ids", PayloadValue::Texts(ids));
    assert(fields(payload@) =~= seq![
        ("thread_id", PayloadView::Text(thread_id@)),
        ("run_id", PayloadView::Text(run_id@)),
        ("message_seq_start", PayloadView::Number(first_new_seq)),
        ("message_seq_end", PayloadView::Number(last_new_seq)),
        ("message_count", PayloadView::Number(listed.len() as u64)),
        ("message_ids", PayloadView::Texts(listed)),
    ]);
    let mut key = join7(
        "ThreadMessagesCheckpointed/",
        thread_id.as_str(),
        "/",
        run_id.as_str(),
        "/",
        decimal_text(first_new_seq).as_str(),
        "-",
    );
    key.append(decimal_text(last_new_seq).as_str());
    EventDraft {
        kind: "ThreadMessagesCheckpointed",
        thread_id: thread_id.clone(),
        run_id: run_id.clone(),
        payload: EventPayload::Fields(payload),
        correlation_id: run_id.clone(),
        idempotency_key: key,
    }
}

/// Whether every sequence number of a range has a message with an id.
pub open spec fn range_has_events(messages: Seq<Message>, first: u64, last: u64) -> bool {
    forall|seq: int| first <= seq <= last ==> #[trigger] has_event(messages, seq)
}

/// Whether a fault tells why the messages `first` to `last` have no checkpoint
/// events: it is about the first of them without an event.
pub open spec fn is_checkpoint_fault(
    fault: Fault,
    thread_id: String,
    run_id: String,
    messages: Seq<Message>,
    first: u64,
    last: u64,
) -> bool {
    exists|seq: u64|
        {
            &&& first <= seq <= last
            &&& !(#[trigger] has_event(messages, seq as int))
            &&& forall|before: int| first <= before < seq ==> #[trigger] has_event(messages, before)
            &&& fault == checkpoint_fault(thread_id, run_id, messages, first, last, seq)
        }
}

/// Whether events are those of a checkpoint of the messages `first` to `last`: one
/// for each message, in order, and one for the range. An empty range has none.
pub open spec fn is_checkpoint(
    drafts: Seq<EventDraft>,
    thread_id: Seq<char>,
    run_id: Seq<char>,
    messages: Seq<Message>,
    first: u64,
    last: u64,
) -> bool {
    if first > last {
        drafts.len() == 0
    } else {
        &&& drafts.len() == last - first + 2
        &&& forall|i: int|
            0 <= i <= last - first ==> is_message_committed(
                #[trigger] drafts[i],
                thread_id,
                run_id,
                messages,
                (first + i) as u64,
            )
        &&& is_range_checkpointed(drafts.last(), thread_id, run_id, messages, first, last)
    }
}

/// The events of a checkpoint of the messages `first_new_seq` to `last_new_seq`:
/// one for each message, in order, and one for the range. An empty range has
/// none. Where `has_publisher` is not set, the range is checked and there are
/// none.
pub fn record_thread_message_checkpoint_events(
    has_publisher: bool,
    thread_id: &String,
    run_id: &String,
    messages: &Vec<Message>,
    first_new_seq: u64,
    last_new_seq: u64,
) -> (r: Result<Vec<EventDraft>, Fault>)
    ensures
        (r is Ok) == range_has_events(messages@, first_new_seq, last_new_seq),
        r matches Err(fault) ==> is_checkpoint_fault(
            fault,
            *thread_id,
            *run_id,
            messages@,
            first_new_seq,
            last_new_seq,
        ),
        r matches Ok(drafts) ==> (if has_publisher {
            is_checkpoint(
                drafts@,
                thread_id@,
                run_id@,
                messages@,
                first_new_seq,
                last_new_seq,
            )
        } else {
            drafts@.len() == 0
        }),
{
    let mut drafts: Vec<EventDraft> = Vec::new();
    if first_new_seq > last_new_seq {
        return Ok(drafts);
    }
    match validate_checkpoint_event_range(
        thread_id,
        run_id,
        messages,
        first_new_seq,
        last_new_seq,
    ) {
        Ok(_) => {},
        Err(fault) => {
            return Err(fault);
        },
    }
    if !has_publisher {
        return Ok(drafts);
    }
    assert(has_event(messages@, first_new_seq as int));
    assert(has_event(messages@, last_new_seq as int));
    let total: u64 = last_new_seq - first_new_seq + 1;
    let mut done: u64 = 0;
    while done < total
        invariant
            1 <= first_new_seq <= last_new_seq,
            total == last_new_seq - first_new_seq + 1,
            done <= total,
            range_has_events(messages@, first_new_seq, last_new_seq),
            drafts@.len() == done,
            forall|i: int|
                0 <= i < drafts@.len() ==> is_message_committed(
                    #[trigger] drafts@[i],
                    thread_id@,
                    run_id@,
                    messages@,
                    (first_new_seq + i) as u64,
                ),
        decreases total - done,
    {
        let seq: u64 = first_new_seq + done;
        assert(has_event(messages@, seq as int));
        match record_message_committed(thread_id, run_id, messages, seq) {
            Some(draft) => {
                drafts.push(draft);
            },
            None => {},
        }
        done = done + 1;
    }
    drafts.push(
        record_thread_messages_checkpointed(
            thread_id,
            run_id,
            messages,
            first_new_seq,
            last_new_seq,
        ),
    );
    Ok(drafts)
}

/// What an event of a checkpoint is called where it could not be published.
pub open spec fn checkpoint_event_name(kind: Seq<char>) -> &'static str {
    if kind == "MessageCommitted"@ {
        "message committed event"
    } else {
        "thread messages checkpoint event"
    }
}

/// The fault of an event of a checkpoint that could not be published.
pub fn checkpoint_event_not_recorded(event: &EventDraft, error: String) -> (r: Fault)
    ensures
        r == (Fault::EventNotRecorded { what: checkpoint_event_name(event.kind@), error }),
{
    let what = if same_text(event.kind, "MessageCommitted") {
        "message committed event"
    } else {
        "thread messages checkpoint event"
    };
    Fault::EventNotRecorded { what, error }
}

/// Publishing the events of a checkpoint again is harmless: an event has the same
/// key whatever was appended to the log since, so it is known to have been
/// published.
pub proof fn lemma_checkpoint_keys_survive_appends(
    thread_id: Seq<char>,
    run_id: Seq<char>,
    messages: Seq<Message>,
    appended: Seq<Message>,
    first: u64,
    last: u64,
    seq: u64,
    now: EventDraft,
    later: EventDraft,
)
    requires
        range_has_events(messages, first, last),
        first <= seq <= last,
    ensures
        range_has_events(messages + appended, first, last),
        is_message_committed(now, thread_id, run_id, messages, seq) && is_message_committed(
            later,
            thread_id,
            run_id,
            messages + appended,
            seq,
        ) ==> now.idempotency_key@ == later.idempotency_key@,
        is_range_checkpointed(now, thread_id, run_id, messages, first, last)
            && is_range_checkpointed(later, thread_id, run_id, messages + appended, first, last)
            ==> now.idempotency_key@ == later.idempotency_key@,
{
    let log = messages + appended;
    assert forall|k: int| first <= k <= last implies #[trigger] has_event(log, k) by {
        assert(has_event(messages, k));
        assert(log[k - 1] == messages[k - 1]);
    }
    assert(has_event(messages, seq as int));
    assert(log[seq - 1] == messages[seq - 1]);
}

/// A checkpoint that cannot be told says why: the log has no message of that number, or
/// the message has no id.
pub proof fn lemma_checkpoint_fault_tells_what_is_missing(
    thread_id: String,
    run_id: String,
    messages: Seq<Message>,
    first: u64,
    last: u64,
    seq: u64,
)
    ensures
        has_event(messages, seq as int) <==> 1 <= seq <= messages.len() && messages[seq - 1].id
            is Some && !is_blank(messages[seq - 1].id->0@),
        1 <= seq <= messages.len() ==> checkpoint_fault(
            thread_id,
            run_id,
            messages,
            first,
            last,
            seq,
        ) == (Fault::CheckpointMessageId { seq, thread_id, run_id }),
        seq == 0 || seq > messages.len() ==> (checkpoint_fault(
            thread_id,
            run_id,
            messages,
            first,
            last,
            seq,
        ) matches Fault::CheckpointRange { first: f, last: l, thread_id: t, run_id: r, .. } && f
            == first && l == last && t == thread_id && r == run_id),
{
}

/// A message that keeps a checkpoint from being told is the first one of the range that has
/// no id: it is in the range, and all before it can be told.
pub proof fn lemma_checkpoint_fault_is_the_first(
    fault: Fault,
    thread_id: String,
    run_id: String,
    messages: Seq<Message>,
    first: u64,
    last: u64,
    before: int,
)
    requires
        is_checkpoint_fault(fault, thread_id, run_id, messages, first, last),
    ensures
        fault is CheckpointMessageId || fault is CheckpointRange,
        fault matches Fault::CheckpointMessageId { seq, thread_id: t, run_id: r } ==> first <= seq
            <= last && 1 <= seq <= messages.len() && (messages[seq - 1].id is None || is_blank(
            messages[seq - 1].id->0@,
        )) && t == thread_id && r == run_id && (first <= before < seq ==> 1 <= before
            <= messages.len() && messages[before - 1].id is Some && !is_blank(
            messages[before - 1].id->0@,
        )),
        fault is CheckpointRange ==> first == 0 || last > messages.len(),
{
    let seq = choose|seq: u64|
        {
            &&& first <= seq <= last
            &&& !(#[trigger] has_event(messages, seq as int))
            &&& forall|before: int| first <= before < seq ==> #[trigger] has_event(messages, before)
            &&& fault == checkpoint_fault(thread_id, run_id, messages, first, last, seq)
        };
    if first <= before < seq {
        assert(has_event(messages, before));
    }
    if seq == 0 {
        assert(first == 0);
    }
}

} // verus!
