//! What the preparation of a run makes of the request: the agent that it settles on, the
//! run that it is for, and what is kept of it in the record that is committed.

use vstd::prelude::*;

use crate::activation::{RunActivation, RunKind, RunMode};
use crate::delivery::{DeliveryBoundary, DeliveryGranularity};
use crate::error::Fault;
use crate::mailbox::checkpoint::CommitOutcome;
use crate::mailbox::helpers::ids_of;
use crate::mailbox::live_delivery::WaitingStep;
use crate::mailbox::pending_freeze::{
    freeze_answers, freeze_follows, FreezeReply, FreezeScope, FreezeStep, PendingFreeze,
};
use crate::mailbox::prepare_run::{
    at_freeze, begins_preparation, is_preparation, prepare_answers, prepare_follows,
    record_in_freeze, PrepareReply, PrepareScope, PrepareStep, RecordPlan, ResolutionScope, RunIds,
    RunPreparation,
};
use crate::message::{texts, Message};
use crate::run::{RunActivationSnapshot, RunRecord, RunStatus};
use crate::text::is_blank;

verus! {

/// Whether a request has an agent: the one that was asked for where one was, and else
/// the given one.
pub open spec fn names_agent(
    asked: RunActivation,
    request: RunActivation,
    agent_id: String,
) -> bool {
    request.intent.agent_id == Some(
        match asked.intent.agent_id {
            Some(named) => named,
            None => agent_id,
        },
    )
}

/// Whether a request is the one that was asked for, but for the agent where none was
/// named, for ids where none were chosen, and for the run that it continues where it
/// named none.
pub open spec fn keeps_what_was_asked(asked: RunActivation, request: RunActivation) -> bool {
    &&& request.intent.thread_id == asked.intent.thread_id
    &&& asked.intent.agent_id is Some ==> request.intent.agent_id == asked.intent.agent_id
    &&& request.messages == asked.messages
    &&& request.options == asked.options
    &&& request.control == asked.control
    &&& request.has_run_resolver == asked.has_run_resolver
    &&& request.trace.adapter == asked.trace.adapter
    &&& request.trace.origin == asked.trace.origin
    &&& request.trace.parent_run_id == asked.trace.parent_run_id
    &&& request.trace.parent_thread_id == asked.trace.parent_thread_id
    &&& request.trace.transport_request_id == asked.trace.transport_request_id
    &&& request.trace.dispatch_id == asked.trace.dispatch_id
    &&& request.trace.session_id == asked.trace.session_id
    &&& request.persistence.resolution_id_hint == asked.persistence.resolution_id_hint
    &&& request.persistence.messages_already_persisted
        == asked.persistence.messages_already_persisted
    &&& asked.persistence.dispatch_id_hint is Some && !is_blank(
        asked.persistence.dispatch_id_hint->0@,
    ) ==> request.persistence.dispatch_id_hint == asked.persistence.dispatch_id_hint
    &&& asked.persistence.run_id_hint is Some && !is_blank(asked.persistence.run_id_hint->0@)
        ==> request.persistence.run_id_hint == asked.persistence.run_id_hint
    &&& {
        ||| request.intent.kind == asked.intent.kind && request.trace.run_mode
            == asked.trace.run_mode
        ||| asked.intent.kind is NewRun && asked.persistence.run_id_hint is None
            && request.intent.kind is HitlResume && request.trace.run_mode == RunMode::Resume
    }
}

/// Whether a snapshot keeps what a request asks for.
pub open spec fn is_kept_in(request: RunActivation, snapshot: RunActivationSnapshot) -> bool {
    &&& snapshot.intent == request.intent
    &&& snapshot.options.overrides == request.options.overrides
    &&& snapshot.options.frontend_tools@ == request.options.frontend_tools@
    &&& snapshot.trace == request.trace
    &&& snapshot.seeded_decisions@ == request.control.seeded_decisions@
}

/// Whether a record has a snapshot that keeps what a request asks for.
pub open spec fn is_kept_by(request: RunActivation, record: RunRecord) -> bool {
    record.activation matches Some(snapshot) && is_kept_in(request, snapshot)
}

/// Whether a step of a freeze keeps what a request asks for, in the snapshot that it is
/// made from or in the record.
pub open spec fn is_kept_by_freeze(request: RunActivation, step: FreezeStep) -> bool {
    match step {
        FreezeStep::LoadCommitted { template, .. }
        | FreezeStep::LoadPending { template, .. }
        | FreezeStep::Select { template, .. } => is_kept_in(request, template),
        FreezeStep::Commit { attempt, .. } => is_kept_by(request, attempt.record),
        FreezeStep::Publish { record, .. }
        | FreezeStep::QueueRepair { record, .. }
        | FreezeStep::RefreshCache { record, .. } => is_kept_by(request, record),
        FreezeStep::Done { .. } => true,
    }
}

/// What holds of the request at a stage of its preparation: until the run was loaded it
/// has the agent that was asked for, if any; from then on it has one.
pub open spec fn has_its_agent(asked: RunActivation, stage: RunPreparation) -> bool {
    let request = stage.request;
    match stage.step {
        PrepareStep::FindWaiting { .. } => request == asked,
        PrepareStep::LatestRun { .. } | PrepareStep::LoadRun { .. } => request.intent.agent_id
            == asked.intent.agent_id,
        PrepareStep::Resolve { plan, .. } => names_agent(
            asked,
            request,
            match plan {
                RecordPlan::Existing { record } => record.agent_id,
                RecordPlan::New { agent_id, .. } => agent_id,
            },
        ),
        PrepareStep::Freeze { freeze, .. } => names_agent(
            asked,
            request,
            record_in_freeze(freeze.step).agent_id,
        ) && is_kept_by_freeze(request, freeze.step),
        PrepareStep::LoadCommitted { record, .. } => names_agent(asked, request, record.agent_id),
        PrepareStep::Commit { record, .. }
        | PrepareStep::Publish { record, .. }
        | PrepareStep::RefreshCache { record, .. } => names_agent(
            asked,
            request,
            record.agent_id,
        ) && is_kept_by(request, record),
        PrepareStep::Done { .. } => true,
    }
}

proof fn lemma_freeze_keeps_the_request(
    scope: FreezeScope,
    request: RunActivation,
    step: FreezeStep,
    reply: FreezeReply,
    next: FreezeStep,
)
    requires
        freeze_answers(scope, step, reply),
        freeze_follows(scope, step, reply, next),
        is_kept_by_freeze(request, step),
    ensures
        is_kept_by_freeze(request, next),
        record_in_freeze(next).agent_id == record_in_freeze(step).agent_id,
{
}

proof fn lemma_begins_as_asked(
    scope: PrepareScope,
    asked: RunActivation,
    messages: Vec<Message>,
    fresh: RunIds,
    stage: RunPreparation,
)
    requires
        begins_preparation(scope, asked, messages, fresh, stage),
    ensures
        keeps_what_was_asked(asked, stage.request),
        has_its_agent(asked, stage),
{
}

proof fn lemma_stage_keeps_the_request(
    asked: RunActivation,
    before: RunPreparation,
    reply: PrepareReply,
    fresh: RunIds,
    after: RunPreparation,
)
    requires
        prepare_answers(before.step, reply),
        prepare_follows(before, reply, fresh, after),
        keeps_what_was_asked(asked, before.request),
        has_its_agent(asked, before),
        before.step is FindWaiting ==> asked.intent.kind is NewRun
            && asked.persistence.run_id_hint is None,
    ensures
        keeps_what_was_asked(asked, after.request),
        has_its_agent(asked, after),
        after.step is FindWaiting ==> before.step is FindWaiting,
{
    if let PrepareStep::Freeze { ids, boundary, freeze } = before.step {
        let inner = reply->Freezing_0;
        let next = choose|next: FreezeStep| #[trigger]
            freeze_follows(freeze.scope, freeze.step, inner, next) && after.step == at_freeze(
                before.scope,
                ids,
                boundary,
                PendingFreeze { step: next, ..freeze },
            );
        lemma_freeze_keeps_the_request(freeze.scope, before.request, freeze.step, inner, next);
    }
}

/// What is prepared is what was asked for: the thread, the messages, the options, the
/// decisions and the origin of the request stay as they were, ids that were chosen are
/// kept, and it continues another run only where it named none.
pub proof fn lemma_preparation_keeps_what_was_asked(
    scope: PrepareScope,
    asked: RunActivation,
    messages: Vec<Message>,
    stages: Seq<RunPreparation>,
    replies: Seq<PrepareReply>,
    first: RunIds,
    fresh: Seq<RunIds>,
    at: int,
)
    requires
        is_preparation(scope, asked, messages, stages, replies, first, fresh),
        0 <= at < stages.len(),
    ensures
        keeps_what_was_asked(asked, stages[at].request),
        has_its_agent(asked, stages[at]),
        stages[at].step is FindWaiting ==> asked.intent.kind is NewRun
            && asked.persistence.run_id_hint is None,
    decreases at,
{
    if at == 0 {
        lemma_begins_as_asked(scope, asked, messages, first, stages[0]);
    } else {
        lemma_preparation_keeps_what_was_asked(
            scope,
            asked,
            messages,
            stages,
            replies,
            first,
            fresh,
            at - 1,
        );
        assert(prepare_answers(stages[at - 1].step, replies[at - 1]));
        assert(prepare_follows(stages[at - 1], replies[at - 1], fresh[at - 1], stages[at]));
        lemma_stage_keeps_the_request(
            asked,
            stages[at - 1],
            replies[at - 1],
            fresh[at - 1],
            stages[at],
        );
    }
}

/// Whether a reply says that a record was committed which keeps what a request asks for,
/// with the agent that was asked for, or else with that of the record.
pub open spec fn commits_with_agent(
    asked: RunActivation,
    stage: RunPreparation,
    reply: PrepareReply,
    request: RunActivation,
) -> bool {
    match (stage.step, reply) {
        (PrepareStep::Commit { record, .. }, PrepareReply::Committed(outcome)) => outcome
            == CommitOutcome::Committed && names_agent(asked, request, record.agent_id)
            && is_kept_by(request, record),
        (
            PrepareStep::Freeze { freeze, .. },
            PrepareReply::Freezing(FreezeReply::Frozen(Ok(_))),
        ) => freeze.step matches FreezeStep::Commit { attempt, .. } && names_agent(
            asked,
            request,
            attempt.record.agent_id,
        ) && is_kept_by(request, attempt.record),
        _ => false,
    }
}

/// Whether a stage has the commit of its record behind it.
spec fn is_behind_commit(step: PrepareStep) -> bool {
    match step {
        PrepareStep::Publish { .. } | PrepareStep::RefreshCache { .. } => true,
        PrepareStep::Freeze { freeze, .. } => freeze.step is Publish || freeze.step is QueueRepair
            || freeze.step is RefreshCache,
        PrepareStep::Done { outcome } => outcome is Ok,
        _ => false,
    }
}

proof fn lemma_commit_comes_first(
    asked: RunActivation,
    before: RunPreparation,
    reply: PrepareReply,
    fresh: RunIds,
    after: RunPreparation,
)
    requires
        prepare_answers(before.step, reply),
        prepare_follows(before, reply, fresh, after),
        has_its_agent(asked, before),
        is_behind_commit(after.step),
    ensures
        after.request == before.request,
        is_behind_commit(before.step) || commits_with_agent(asked, before, reply, after.request),
{
    if let PrepareStep::Freeze { ids, boundary, freeze } = before.step {
        let inner = reply->Freezing_0;
        let next = choose|next: FreezeStep| #[trigger]
            freeze_follows(freeze.scope, freeze.step, inner, next) && after.step == at_freeze(
                before.scope,
                ids,
                boundary,
                PendingFreeze { step: next, ..freeze },
            );
        assert(freeze_answers(freeze.scope, freeze.step, inner));
    }
}

/// Whether a record was committed before the stage `at` which keeps what its request asks
/// for, with the agent.
pub open spec fn was_kept_with_agent(
    asked: RunActivation,
    stages: Seq<RunPreparation>,
    replies: Seq<PrepareReply>,
    at: int,
) -> bool {
    exists|i: int|
        0 <= i < at && #[trigger] commits_with_agent(
            asked,
            stages[i],
            replies[i],
            stages[at].request,
        )
}

proof fn lemma_kept_with_agent(
    scope: PrepareScope,
    asked: RunActivation,
    messages: Vec<Message>,
    stages: Seq<RunPreparation>,
    replies: Seq<PrepareReply>,
    first: RunIds,
    fresh: Seq<RunIds>,
    at: int,
)
    requires
        is_preparation(scope, asked, messages, stages, replies, first, fresh),
        0 <= at < stages.len(),
        is_behind_commit(stages[at].step),
    ensures
        was_kept_with_agent(asked, stages, replies, at),
    decreases at,
{
    if at == 0 {
        lemma_begins_as_asked(scope, asked, messages, first, stages[0]);
    } else {
        lemma_preparation_keeps_what_was_asked(
            scope,
            asked,
            messages,
            stages,
            replies,
            first,
            fresh,
            at - 1,
        );
        assert(prepare_answers(stages[at - 1].step, replies[at - 1]));
        assert(prepare_follows(stages[at - 1], replies[at - 1], fresh[at - 1], stages[at]));
        lemma_commit_comes_first(
            asked,
            stages[at - 1],
            replies[at - 1],
            fresh[at - 1],
            stages[at],
        );
        if is_behind_commit(stages[at - 1].step) {
            lemma_kept_with_agent(
                scope,
                asked,
                messages,
                stages,
                replies,
                first,
                fresh,
                at - 1,
            );
            let i = choose|i: int|
                0 <= i < at - 1 && #[trigger] commits_with_agent(
                    asked,
                    stages[i],
                    replies[i],
                    stages[at - 1].request,
                );
            assert(commits_with_agent(asked, stages[i], replies[i], stages[at].request));
        } else {
            assert(commits_with_agent(asked, stages[at - 1], replies[at - 1], stages[at].request));
        }
    }
}

/// After a preparation that succeeds, the request has an agent: the one that the submit
/// named where it named one, and else that of the run record that was committed. The
/// snapshot in that record has the same agent, and all else that the request asks for.
pub proof fn lemma_prepared_request_has_its_agent(
    scope: PrepareScope,
    asked: RunActivation,
    messages: Vec<Message>,
    stages: Seq<RunPreparation>,
    replies: Seq<PrepareReply>,
    first: RunIds,
    fresh: Seq<RunIds>,
    run_id: String,
)
    requires
        is_preparation(scope, asked, messages, stages, replies, first, fresh),
        stages.last().step == (PrepareStep::Done { outcome: Ok(run_id) }),
    ensures
        stages.last().request.intent.agent_id is Some,
        asked.intent.agent_id is Some ==> stages.last().request.intent.agent_id
            == asked.intent.agent_id,
        was_kept_with_agent(asked, stages, replies, stages.len() - 1),
{
    let at = stages.len() - 1;
    lemma_kept_with_agent(scope, asked, messages, stages, replies, first, fresh, at);
    let i = choose|i: int|
        0 <= i < at && #[trigger] commits_with_agent(
            asked,
            stages[i],
            replies[i],
            stages[at].request,
        );
    assert(commits_with_agent(asked, stages[i], replies[i], stages[at].request));
}

/// The record that a step is about to store, where it is about to store one.
pub open spec fn record_to_store(step: PrepareStep) -> Option<RunRecord> {
    match step {
        PrepareStep::LoadCommitted { record, attempts, .. } => if attempts == 0 {
            Some(record)
        } else {
            None
        },
        PrepareStep::Freeze { freeze, .. } => match freeze.step {
            FreezeStep::LoadCommitted { attempts, record, .. } => if attempts == 0 {
                Some(record)
            } else {
                None
            },
            _ => None,
        },
        _ => None,
    }
}

/// A run that the store does not have is new: it is resolved, and then stored as created,
/// with the ids and the thread of the preparation. A request that names no agent is given
/// that of the thread's last run, where that has run and has an agent, and else the
/// default one; and the run starts with the state of the last run, where that has run.
pub proof fn lemma_new_run_takes_over_from_the_last(
    before: RunPreparation,
    reply: PrepareReply,
    fresh: RunIds,
    resolving: RunPreparation,
    resolved: PrepareReply,
    later: RunIds,
    after: RunPreparation,
    ids: RunIds,
    previous: Option<RunRecord>,
    resolution_id: String,
    now: u64,
)
    requires
        before.step matches PrepareStep::LoadRun { ids: i, previous: p, .. } && i == ids && p
            == previous,
        reply == PrepareReply::Run(Ok(None)),
        prepare_follows(before, reply, fresh, resolving),
        resolved == (PrepareReply::Resolved { result: Ok(resolution_id), now }),
        prepare_follows(resolving, resolved, later, after),
    ensures
        resolving.step matches PrepareStep::Resolve { scope, .. } && scope == (
        match before.request.persistence.resolution_id_hint {
            Some(hint) => ResolutionScope::Pinned(hint),
            None => if before.request.has_run_resolver {
                ResolutionScope::Live
            } else {
                ResolutionScope::Pinned(ids.run_id)
            },
        }),
        record_to_store(after.step) matches Some(record) && {
            let ran = previous matches Some(last) && last.status != RunStatus::Created;
            &&& record.run_id == ids.run_id
            &&& record.dispatch_id == Some(ids.dispatch_id)
            &&& record.thread_id == before.scope.thread_id
            &&& record.resolution_id == Some(resolution_id)
            &&& record.status == RunStatus::Created
            &&& record.created_at == now
            &&& record.updated_at == now
            &&& record.parent_run_id == before.request.trace.parent_run_id
            &&& record.transport_request_id == before.request.trace.transport_request_id
            &&& record.started_at is None
            &&& record.finished_at is None
            &&& record.waiting is None
            &&& record.termination_reason is None
            &&& record.error_payload is None
            &&& record.input is None
            &&& record.request is None
            &&& record.steps == 0
            &&& record.input_tokens == 0
            &&& record.output_tokens == 0
            &&& after.request.intent.agent_id is Some
            &&& after.request.intent.agent_id->0@ == record.agent_id@
            &&& before.request.intent.agent_id is Some ==> after.request.intent.agent_id
                == before.request.intent.agent_id
            &&& before.request.intent.agent_id is None ==> record.agent_id@ == (if ran && !is_blank(
                previous->0.agent_id@,
            ) {
                previous->0.agent_id@
            } else {
                "default"@
            })
            &&& record.state == (if ran {
                previous->0.state
            } else {
                None
            })
        },
{
}

/// A run that the store has is prepared only where it belongs to the thread and was not
/// begun or waits for input that may continue it; it is a fault otherwise. Its record is
/// stored with the new dispatch, and a request that names no agent is given its agent.
pub proof fn lemma_known_run_is_taken_up_where_it_is_open(
    before: RunPreparation,
    reply: PrepareReply,
    fresh: RunIds,
    after: RunPreparation,
    ids: RunIds,
    found: RunRecord,
)
    requires
        before.step matches PrepareStep::LoadRun { ids: i, .. } && i == ids,
        reply == PrepareReply::Run(Ok(Some(found))),
        prepare_follows(before, reply, fresh, after),
    ensures
        found.thread_id@ != before.scope.thread_id@ ==> after.step == (PrepareStep::Done {
            outcome: Err(
                Fault::RunOfOtherThread {
                    run_id: ids.run_id,
                    owner: found.thread_id,
                    thread_id: before.scope.thread_id,
                },
            ),
        }),
        found.thread_id@ == before.scope.thread_id@ && found.status != RunStatus::Created && !(
        found.status == RunStatus::Waiting && found.waiting is Some && found.waiting->0.resumable)
            ==> after.step == (PrepareStep::Done {
            outcome: Err(Fault::RunNotOpen { run_id: ids.run_id }),
        }),
        found.thread_id@ == before.scope.thread_id@ && (found.status == RunStatus::Created || (
        found.status == RunStatus::Waiting && found.waiting is Some
            && found.waiting->0.resumable)) ==> {
            let kept = RunRecord {
                request: None,
                dispatch_id: Some(ids.dispatch_id),
                ..found
            };
            &&& names_agent(before.request, after.request, found.agent_id)
            &&& found.resolution_id is Some ==> record_to_store(after.step) == Some(kept)
            &&& found.resolution_id is None ==> (after.step matches PrepareStep::Resolve {
                plan: RecordPlan::Existing { record },
                ..
            } && record == kept)
        },
{
}

/// Where the record is to be stored, the messages of a request with a pending store go
/// through the pending partition: of a foreground run as an interrupt, of a scheduled one
/// as a new run, and of a run that is continued without decisions as its input, which is
/// for that run alone. All else is appended to the log.
pub proof fn lemma_messages_are_staged_by_the_mode_of_the_run(
    before: RunPreparation,
    reply: PrepareReply,
    fresh: RunIds,
    after: RunPreparation,
    messages: Vec<Message>,
)
    requires
        before.step matches PrepareStep::LoadRun { messages: m, .. } && m == messages,
        prepare_answers(before.step, reply),
        prepare_follows(before, reply, fresh, after),
    ensures
        after.step matches PrepareStep::LoadCommitted { messages: m, .. } ==> m == messages && {
            ||| !before.scope.has_pending_store
            ||| messages@.len() == 0
            ||| before.request.trace.run_mode == RunMode::InternalWake
            ||| before.request.trace.run_mode == RunMode::Resume
                && before.request.control.seeded_decisions@.len() > 0
        },
        after.step matches PrepareStep::Freeze { ids, boundary, freeze } ==> {
            &&& before.scope.has_pending_store
            &&& messages@.len() > 0
            &&& freeze.scope.boundary == boundary
            &&& freeze.scope.run_id == ids.run_id
            &&& freeze.scope.thread_id == before.scope.thread_id
            &&& freeze.scope.append matches Some(append) && append.messages == messages
                && append.mode.boundary == boundary && append.mode.granularity
                == DeliveryGranularity::Batch && !append.mode.barrier && (boundary
                == DeliveryBoundary::ResumeInput ==> append.mode.target_run_id == Some(ids.run_id)
                && !append.mode.fallback_to_new_run) && (boundary != DeliveryBoundary::ResumeInput
                ==> append.mode.target_run_id is None && append.mode.fallback_to_new_run)
            &&& match before.request.trace.run_mode {
                RunMode::Foreground => boundary == DeliveryBoundary::Interrupt,
                RunMode::Scheduled => boundary == DeliveryBoundary::NewRun,
                RunMode::Resume => boundary == DeliveryBoundary::ResumeInput
                    && before.request.control.seeded_decisions@.len() == 0,
                RunMode::InternalWake => false,
            }
        },
{
}

/// A request that names no run continues a run of the thread that waits for input, where
/// one was found, in the mode of a resume, and else is for a run of its own.
pub proof fn lemma_waiting_run_is_continued(
    before: RunPreparation,
    reply: PrepareReply,
    fresh: RunIds,
    after: RunPreparation,
    found: Option<String>,
)
    requires
        before.step matches PrepareStep::FindWaiting { lookup, .. } && (
        reply matches PrepareReply::Waiting(inner)
            && crate::mailbox::live_delivery::next_waiting_step(
            lookup.thread_id,
            lookup.step,
            inner,
        ) == (WaitingStep::Done { outcome: Ok(found) })),
        before.request.intent.kind is NewRun,
        before.request.persistence.run_id_hint is None,
        prepare_follows(before, reply, fresh, after),
    ensures
        after.step matches PrepareStep::LatestRun { ids, messages } && {
            &&& messages == before.step->FindWaiting_messages
            &&& after.request.persistence.dispatch_id_hint == Some(ids.dispatch_id)
            &&& match found {
                Some(run_id) => {
                    &&& after.request.intent.kind == (RunKind::HitlResume { run_id })
                    &&& after.request.trace.run_mode == RunMode::Resume
                    &&& !is_blank(run_id@) ==> ids.run_id == run_id
                },
                None => {
                    &&& after.request.intent.kind is NewRun
                    &&& after.request.trace.run_mode == before.request.trace.run_mode
                    &&& ids.run_id == fresh.run_id
                    &&& after.request.persistence.run_id_hint == Some(fresh.run_id)
                },
            }
            &&& before.request.persistence.dispatch_id_hint is None ==> ids.dispatch_id
                == fresh.dispatch_id
        },
{
}

/// A request that names its run is for that run, under the dispatch that it names, and
/// looks for no other.
pub proof fn lemma_named_run_is_prepared(
    scope: PrepareScope,
    asked: RunActivation,
    messages: Vec<Message>,
    fresh: RunIds,
    r: RunPreparation,
)
    requires
        begins_preparation(scope, asked, messages, fresh, r),
    ensures
        r.step is FindWaiting <==> asked.intent.kind is NewRun && asked.persistence.run_id_hint
            is None,
        r.step matches PrepareStep::LatestRun { ids, messages: m } ==> {
            &&& m == messages
            &&& r.request.intent == asked.intent
            &&& r.request.trace == asked.trace
            &&& r.request.persistence.dispatch_id_hint == Some(ids.dispatch_id)
            &&& asked.intent.kind matches RunKind::HitlResume { run_id } ==> (if is_blank(run_id@) {
                ids.run_id == fresh.run_id
            } else {
                ids.run_id == run_id
            })
            &&& asked.intent.kind is NewRun ==> (if is_blank(asked.persistence.run_id_hint->0@) {
                ids.run_id == fresh.run_id
            } else {
                ids.run_id == asked.persistence.run_id_hint->0
            })
            &&& if asked.persistence.dispatch_id_hint is Some && !is_blank(
                asked.persistence.dispatch_id_hint->0@,
            ) {
                ids.dispatch_id == asked.persistence.dispatch_id_hint->0
            } else {
                ids.dispatch_id == fresh.dispatch_id
            }
        },
{
}

/// The messages and the ids of a preparation go with it unchanged, from one lookup to the
/// next. A lookup that fails ends it with the store's error, and a request that cannot be
/// resolved with the resolver's; what was resolved is pinned in the record.
pub proof fn lemma_preparation_looks_up_and_resolves(
    before: RunPreparation,
    reply: PrepareReply,
    fresh: RunIds,
    after: RunPreparation,
)
    requires
        prepare_answers(before.step, reply),
        prepare_follows(before, reply, fresh, after),
    ensures
        after.scope == before.scope,
        before.step matches PrepareStep::LatestRun { ids, messages } ==> match reply {
            PrepareReply::Run(Ok(previous)) => after.request == before.request && after.step == (
            PrepareStep::LoadRun { ids, messages, previous }),
            PrepareReply::Run(Err(error)) => after.step == (PrepareStep::Done {
                outcome: Err(Fault::Store(error)),
            }),
            _ => false,
        },
        before.step is LoadRun ==> (reply matches PrepareReply::Run(Err(error)) ==> after.step == (
        PrepareStep::Done { outcome: Err(Fault::Store(error)) })),
        before.step matches PrepareStep::Resolve { ids, messages, plan, .. } ==> match reply {
            PrepareReply::Resolved { result: Err(source), .. } => after.step == (PrepareStep::Done {
                outcome: Err(Fault::Resolution { source }),
            }),
            PrepareReply::Resolved { result: Ok(resolution_id), .. } => after.request
                == before.request && (record_to_store(after.step) matches Some(record)
                && record.resolution_id == Some(resolution_id) && (plan matches RecordPlan::Existing {
                record: found,
            } ==> record.run_id == found.run_id && record.agent_id == found.agent_id
                && record.status == found.status && record.dispatch_id == found.dispatch_id
                && record.created_at == found.created_at)) && (
            after.step matches PrepareStep::LoadCommitted { ids: i, messages: m, resolution_id: r, .. }
                ==> i == ids && m == messages && r == resolution_id) && (
            after.step matches PrepareStep::Freeze { ids: i, freeze, .. } ==> i == ids && (
            freeze.scope.append matches Some(append) && append.messages == messages)),
            _ => false,
        },
{
}

/// An append that met another one reads the log again, up to eight appends in all, with
/// the same messages. One that is refused otherwise ends the preparation with the error;
/// one that was committed has its messages at the end of the log, and is published. The
/// preparation then gives back the run that it was for.
pub proof fn lemma_preparation_appends_until_it_is_through(
    before: RunPreparation,
    reply: PrepareReply,
    fresh: RunIds,
    after: RunPreparation,
)
    requires
        prepare_answers(before.step, reply),
        prepare_follows(before, reply, fresh, after),
    ensures
        before.step matches PrepareStep::LoadCommitted { ids, messages, resolution_id, attempts, .. }
            ==> match reply {
            PrepareReply::Messages { result: Err(error), .. } => after.step == (PrepareStep::Done {
                outcome: Err(Fault::Store(error)),
            }),
            PrepareReply::Messages { result: Ok(log), now } => after.step
                matches PrepareStep::Commit {
                ids: i,
                messages: m,
                record,
                resolution_id: r,
                attempts: a,
                existing,
                first_seq,
                last_seq,
            } && i == ids && m == messages && r == resolution_id && a == attempts && (
            log matches Some(found) ==> existing == found) && (log is None ==> existing@.len() == 0)
                && first_seq == existing@.len() + 1 && last_seq == existing@.len()
                + messages@.len() && record.updated_at == now,
            _ => false,
        },
        before.step matches PrepareStep::Commit {
            ids,
            messages,
            record,
            attempts,
            existing,
            first_seq,
            last_seq,
            ..
        } ==> match reply {
            PrepareReply::Committed(CommitOutcome::Committed) => after.step
                matches PrepareStep::Publish {
                ids: i,
                record: r,
                log,
                first_seq: from,
                last_seq: to,
            } && i == ids && r == record && log@ == existing@ + messages@ && from == first_seq && to
                == last_seq,
            PrepareReply::Committed(CommitOutcome::Conflict) => if attempts < 7 {
                after.step matches PrepareStep::LoadCommitted { ids: i, messages: m, attempts: a, .. }
                    && i == ids && m == messages && a == attempts + 1
            } else {
                after.step == (PrepareStep::Done {
                    outcome: Err(
                        Fault::AppendRetriesExhausted { thread_id: before.scope.thread_id },
                    ),
                })
            },
            PrepareReply::Committed(CommitOutcome::Failed { error }) => after.step == (
            PrepareStep::Done { outcome: Err(Fault::CommitFailed { error }) }),
            _ => false,
        },
        before.step matches PrepareStep::Publish { ids, record, log, .. } ==> after.step == (
        PrepareStep::RefreshCache { ids, record, log }),
        before.step matches PrepareStep::RefreshCache { ids, .. } ==> after.step == (
        PrepareStep::Done { outcome: Ok(ids.run_id) }),
{
}

/// A preparation that stages its messages gives back its run exactly where the freeze
/// consumed something. A freeze that found nothing leaves the run without input, which is
/// a fault; and a freeze that failed is the failure of the preparation.
pub proof fn lemma_preparation_needs_its_messages_frozen(
    before: RunPreparation,
    reply: PrepareReply,
    fresh: RunIds,
    after: RunPreparation,
    outcome: Result<String, Fault>,
)
    requires
        prepare_answers(before.step, reply),
        prepare_follows(before, reply, fresh, after),
        before.step is Freeze,
        after.step == (PrepareStep::Done { outcome }),
    ensures
        before.step matches PrepareStep::Freeze { ids, boundary, freeze } && exists|next: FreezeStep|
            #[trigger] freeze_follows(freeze.scope, freeze.step, reply->Freezing_0, next) && (
            next matches FreezeStep::Done { outcome: frozen, .. } && match frozen {
                Ok(Some(_)) => outcome == Ok::<String, Fault>(ids.run_id),
                Ok(None) => outcome == Err::<String, Fault>(
                    Fault::NothingToFreeze { boundary, thread_id: before.scope.thread_id },
                ),
                Err(fault) => outcome == Err::<String, Fault>(fault),
            }),
{
    let ids = before.step->Freeze_ids;
    let boundary = before.step->Freeze_boundary;
    let freeze = before.step->freeze;
    let inner = reply->Freezing_0;
    let next = choose|next: FreezeStep| #[trigger]
        freeze_follows(freeze.scope, freeze.step, inner, next) && after.step == at_freeze(
            before.scope,
            ids,
            boundary,
            PendingFreeze { step: next, ..freeze },
        );
    assert(freeze_follows(freeze.scope, freeze.step, inner, next));
}

/// A preparation takes up the end of a lookup or of a freeze at once.
pub proof fn lemma_preparation_takes_up_what_has_ended(
    before: RunPreparation,
    reply: PrepareReply,
    fresh: RunIds,
    after: RunPreparation,
)
    requires
        prepare_answers(before.step, reply),
        prepare_follows(before, reply, fresh, after),
    ensures
        after.step matches PrepareStep::FindWaiting { lookup, .. } ==> !(lookup.step is Done),
        after.step matches PrepareStep::Freeze { freeze, .. } ==> !(freeze.step is Done),
{
}

/// The run that is committed with its messages spans the whole log with them, is triggered
/// by exactly them, in order, and its snapshot says the same.
pub proof fn lemma_appended_messages_trigger_the_run(
    before: RunPreparation,
    reply: PrepareReply,
    fresh: RunIds,
    after: RunPreparation,
    k: int,
)
    requires
        prepare_answers(before.step, reply),
        prepare_follows(before, reply, fresh, after),
        before.step is LoadCommitted,
        after.step matches PrepareStep::Commit { messages, .. } && 0 <= k < messages@.len() && forall|
            i: int,
        |
            0 <= i < messages@.len() ==> (#[trigger] messages@[i]).id is Some,
    ensures
        after.step matches PrepareStep::Commit { messages, existing, record, .. } && (
        record.input matches Some(input) && input.thread_id@ == before.scope.thread_id@
            && input.trigger_message_ids@.len() == messages@.len()
            && input.trigger_message_ids@[k]@ == messages@[k].id->0@ && (existing@.len()
            + messages@.len() <= u64::MAX ==> (input.range matches Some(range) && range.from_seq == 1
            && range.to_seq == existing@.len() + messages@.len())) && (
        record.activation matches Some(snapshot) && snapshot.input.range == input.range
            && snapshot.input.thread_id@ == input.thread_id@
            && snapshot.input.trigger_message_ids@.len() == messages@.len()
            && snapshot.input.trigger_message_ids@[k]@ == messages@[k].id->0@)),
{
    let messages = after.step->Commit_messages@;
    let record = after.step->Commit_record;
    let input = record.input->0;
    let kept = record.activation->0.input;
    lemma_ids_of_all_messages(messages);
    assert(input@.trigger_message_ids == ids_of(messages));
    assert(kept@.trigger_message_ids == ids_of(messages));
    assert(texts(input.trigger_message_ids@)[k] == input.trigger_message_ids@[k]@);
    assert(texts(kept.trigger_message_ids@)[k] == kept.trigger_message_ids@[k]@);
    assert(input@.thread_id == kept@.thread_id);
}

proof fn lemma_ids_of_all_messages(messages: Seq<Message>)
    requires
        forall|i: int| 0 <= i < messages.len() ==> (#[trigger] messages[i]).id is Some,
    ensures
        ids_of(messages).len() == messages.len(),
        forall|i: int|
            0 <= i < messages.len() ==> #[trigger] ids_of(messages)[i] == messages[i].id->0@,
    decreases messages.len(),
{
    if messages.len() > 0 {
        let fewer = messages.drop_last();
        assert forall|i: int| 0 <= i < fewer.len() implies (#[trigger] fewer[i]).id is Some by {
            assert(fewer[i] == messages[i]);
        }
        lemma_ids_of_all_messages(fewer);
        assert(messages.last() == messages[messages.len() - 1]);
    }
}

} // verus!
