//! What a recovery at startup leaves behind: nothing of what it found. The three scans
//! that it makes read every page, take up every run and thread that they are for, and
//! count what they did.

use vstd::prelude::*;

use crate::activation::{RunActivation, RunKind, RunMode, RunOrigin};
use crate::dispatch::RunDispatchStatus;
use crate::error::{Fault, StorageError};
use crate::lists::{is_ascending, lemma_precedes_is_total, names, precedes};
use crate::mailbox::recovery::{
    background_waits, is_orphan_scan, is_prepared_recovery, is_wait_recovery, is_wake,
    lemma_only_orphaned_waits_are_woken, lemma_only_orphans_are_reported, next_uncovered,
    next_unqueued, orphan_answers, orphan_follows, prepared_answers, prepared_follows, wait_answers,
    wait_follows, with_background_waits, OrphanReply, OrphanScan, OrphanStep, PreparedRecovery,
    PreparedReply, PreparedStep, WaitRecovery, WaitReply, WaitStep,
};
use crate::message::{ContentBlock, Role, Visibility};
use crate::run::{RunRecord, RunStatus, WaitingReason};

verus! {

/// How many dispatches the first `n` replies say were queued.
pub open spec fn dispatches_queued(replies: Seq<PreparedReply>, n: int) -> int
    decreases n,
{
    if n <= 0 {
        0
    } else {
        dispatches_queued(replies, n - 1) + (if replies[n - 1] is Queued {
            1int
        } else {
            0int
        })
    }
}

/// The scan of prepared runs reads the pages of the runs that were not begun, and then
/// those of the runs that wait, each page from where the one before it ended; and only a
/// store that fails makes it end before.
pub proof fn lemma_prepared_scan_reads_every_page(
    states: Seq<PreparedRecovery>,
    replies: Seq<PreparedReply>,
    i: int,
    status: RunStatus,
    offset: usize,
)
    requires
        is_prepared_recovery(states, replies),
        0 <= i < replies.len(),
        states[i].step == (PreparedStep::ListRuns { status, offset }),
    ensures
        replies[i] matches PreparedReply::Runs(result) && match result {
            Err(error) => states[i + 1].step == (PreparedStep::Done {
                outcome: Err(Fault::Store(error)),
            }),
            Ok(page) => if page.has_more && page.items@.len() > 0 {
                states[i + 1].step matches PreparedStep::ListRuns { status: s, offset: o } && s
                    == status && o == offset + page.items@.len()
            } else if status == RunStatus::Created {
                states[i + 1].step == (PreparedStep::ListRuns {
                    status: RunStatus::Waiting,
                    offset: 0,
                })
            } else {
                !(states[i + 1].step is ListRuns)
            },
        },
{
    assert(prepared_answers(states[i], replies[i]));
    assert(prepared_follows(states[i], replies[i], states[i + 1]));
}

/// A dispatch that is missing is queued as a fresh one, under the id that the run was
/// prepared for, with the configured number of attempts, and due at once. What another
/// process queued in the meantime is left to that process; any other failure of the store
/// ends the recovery.
pub proof fn lemma_missing_dispatch_is_queued_afresh(
    states: Seq<PreparedRecovery>,
    replies: Seq<PreparedReply>,
    i: int,
    at: usize,
    dispatch_id: String,
)
    requires
        is_prepared_recovery(states, replies),
        0 <= i < replies.len(),
        states[i].step == (PreparedStep::LoadDispatch { at, dispatch_id }),
    ensures
        replies[i] matches PreparedReply::Dispatch { result, now } && match result {
            Err(error) => states[i + 1].step == (PreparedStep::Done {
                outcome: Err(Fault::Store(error)),
            }),
            Ok(Some(_)) => !(states[i + 1].step is Enqueue) && !(states[i + 1].step is Done
                && states[i + 1].step->outcome is Err),
            Ok(None) => {
                &&& states[i + 1].step matches PreparedStep::Enqueue { at: k, dispatch } && {
                    &&& k == at
                    &&& dispatch.dispatch_id == dispatch_id
                    &&& dispatch.run_id == states[i].runs@[at as int].run_id
                    &&& dispatch.thread_id == states[i].runs@[at as int].thread_id
                    &&& dispatch.status == RunDispatchStatus::Queued
                    &&& dispatch.available_at == now
                    &&& dispatch.created_at == now
                    &&& dispatch.max_attempts == states[0].max_attempts
                    &&& dispatch.attempt_count == 0
                    &&& i + 1 < replies.len() ==> match replies[i + 1] {
                        PreparedReply::Queued => states[i + 2].step == (
                        PreparedStep::PublishQueued { at, dispatch }),
                        PreparedReply::NotQueued(StorageError::AlreadyExists(id)) => if id@
                            == dispatch_id@ {
                            !(states[i + 2].step is Done && states[i + 2].step->outcome is Err)
                        } else {
                            states[i + 2].step == (PreparedStep::Done {
                                outcome: Err(Fault::Store(StorageError::AlreadyExists(id))),
                            })
                        },
                        PreparedReply::NotQueued(error) => states[i + 2].step == (
                        PreparedStep::Done { outcome: Err(Fault::Store(error)) }),
                        _ => false,
                    }
                }
            },
        },
{
    lemma_prepared_settings_stay(states, replies, i);
    assert(prepared_answers(states[i], replies[i]));
    assert(prepared_follows(states[i], replies[i], states[i + 1]));
    if i + 1 < replies.len() {
        assert(prepared_answers(states[i + 1], replies[i + 1]));
        assert(prepared_follows(states[i + 1], replies[i + 1], states[i + 2]));
    }
}

proof fn lemma_prepared_settings_stay(
    states: Seq<PreparedRecovery>,
    replies: Seq<PreparedReply>,
    at: int,
)
    requires
        is_prepared_recovery(states, replies),
        0 <= at < states.len(),
    ensures
        states[at].max_attempts == states[0].max_attempts,
        states[at].queued == states[0].queued,
    decreases at,
{
    if at > 0 {
        lemma_prepared_settings_stay(states, replies, at - 1);
        assert(prepared_answers(states[at - 1], replies[at - 1]));
        assert(prepared_follows(states[at - 1], replies[at - 1], states[at]));
    }
}

/// What the recovery of prepared runs counts is the dispatches that it queued.
pub proof fn lemma_prepared_recovery_counts_the_queued(
    states: Seq<PreparedRecovery>,
    replies: Seq<PreparedReply>,
    at: int,
)
    requires
        is_prepared_recovery(states, replies),
        states[0].total == 0,
        0 <= at < states.len(),
    ensures
        states[at].total + (if states[at].step is PublishQueued {
            1int
        } else {
            0int
        }) == dispatches_queued(replies, at),
        states[at].step matches PreparedStep::Done { outcome: Ok(total) } ==> total
            == dispatches_queued(replies, at),
    decreases at,
{
    if at > 0 {
        lemma_prepared_recovery_counts_the_queued(states, replies, at - 1);
        assert(prepared_answers(states[at - 1], replies[at - 1]));
        assert(prepared_follows(states[at - 1], replies[at - 1], states[at]));
    }
}

/// Whether the worker of a thread was let take up its next dispatch before the state `at`.
pub open spec fn was_taken_up(states: Seq<PreparedRecovery>, at: int, thread: int) -> bool {
    exists|i: int|
        0 <= i < at && (#[trigger] states[i]).step == (PreparedStep::DispatchThread {
            at: thread as usize,
        })
}

/// Whether a thread is taken up, by this recovery or by the one that listed it as queued.
pub open spec fn is_covered(state: PreparedRecovery, thread_id: Seq<char>) -> bool {
    names(state.threads@, thread_id) || names(state.queued@, thread_id)
}

proof fn lemma_threads_are_taken_up(
    states: Seq<PreparedRecovery>,
    replies: Seq<PreparedReply>,
    at: int,
    k: int,
)
    requires
        is_prepared_recovery(states, replies),
        0 <= at < states.len(),
        0 <= k < states[at].threads@.len(),
        match states[at].step {
            PreparedStep::DispatchThread { at: current } => k < current,
            PreparedStep::Done { outcome } => outcome is Ok,
            _ => false,
        },
    ensures
        was_taken_up(states, at, k),
    decreases at,
{
    let before = states[at - 1];
    let count: usize = states[at].threads.len();
    assert(count == states[at].threads@.len());
    if at > 0 {
        assert(prepared_answers(before, replies[at - 1]));
        assert(prepared_follows(before, replies[at - 1], states[at]));
        if let PreparedStep::DispatchThread { at: current } = before.step {
            if k < current {
                lemma_threads_are_taken_up(states, replies, at - 1, k);
                let i = choose|i: int|
                    0 <= i < at - 1 && (#[trigger] states[i]).step == (
                    PreparedStep::DispatchThread { at: k as usize });
                assert(states[i].step == (PreparedStep::DispatchThread { at: k as usize }));
            } else {
                assert(states[at - 1].step == (PreparedStep::DispatchThread { at: k as usize }));
            }
        }
    }
}

/// Where a dispatch was queued for a run, the thread of the run is taken up: by this
/// recovery, once it has succeeded, unless the thread was listed as queued before and is
/// taken up anyway.
pub proof fn lemma_queued_dispatch_is_taken_up(
    states: Seq<PreparedRecovery>,
    replies: Seq<PreparedReply>,
    at: int,
    i: int,
    run: RunRecord,
)
    requires
        is_prepared_recovery(states, replies),
        0 <= i < at < states.len(),
        states[i].step matches PreparedStep::PublishQueued { at: k, .. } && k
            < states[i].runs@.len() && states[i].runs@[k as int] == run,
        states[at].step matches PreparedStep::Done { outcome: Ok(_) },
    ensures
        names(states[0].queued@, run.thread_id@) || exists|k: int|
            0 <= k < states[at].threads@.len() && #[trigger] states[at].threads@[k]@
                == run.thread_id@ && was_taken_up(states, at, k),
{
    lemma_prepared_settings_stay(states, replies, at);
    lemma_covered_stays(states, replies, i, at, run);
    if !names(states[0].queued@, run.thread_id@) {
        let k = choose|k: int|
            0 <= k < states[at].threads@.len() && #[trigger] states[at].threads@[k]@
                == run.thread_id@;
        lemma_threads_are_taken_up(states, replies, at, k);
    }
}

proof fn lemma_covered_stays(
    states: Seq<PreparedRecovery>,
    replies: Seq<PreparedReply>,
    i: int,
    at: int,
    run: RunRecord,
)
    requires
        is_prepared_recovery(states, replies),
        0 <= i < at < states.len(),
        states[i].step matches PreparedStep::PublishQueued { at: k, .. } && k
            < states[i].runs@.len() && states[i].runs@[k as int] == run,
    ensures
        is_covered(states[at], run.thread_id@),
    decreases at,
{
    let before = states[at - 1];
    assert(prepared_answers(before, replies[at - 1]));
    assert(prepared_follows(before, replies[at - 1], states[at]));
    if at - 1 > i {
        lemma_covered_stays(states, replies, i, at - 1, run);
        if before.step is PublishQueued {
            assert(names(states[at].threads@, run.thread_id@) == (names(
                before.threads@,
                run.thread_id@,
            ) || (run.thread_id@ == before.runs@[before.step->PublishQueued_at as int].thread_id@
                && !names(before.queued@, run.thread_id@))));
        }
    } else {
        assert(names(states[at].threads@, run.thread_id@) == (names(
            before.threads@,
            run.thread_id@,
        ) || (run.thread_id@ == run.thread_id@ && !names(before.queued@, run.thread_id@))));
    }
}

/// Whether a run waits for background tasks.
pub open spec fn waits_for_tasks(run: RunRecord) -> bool {
    run.status == RunStatus::Waiting && run.waiting is Some && run.waiting->0.reason
        == WaitingReason::BackgroundTasks
}

/// Whether a run was woken before the state `at`: a request for it was submitted.
pub open spec fn was_woken(
    states: Seq<WaitRecovery>,
    replies: Seq<WaitReply>,
    at: int,
    run: RunRecord,
) -> bool {
    exists|i: int|
        0 <= i < at && (#[trigger] states[i]).step is Submit && replies[i] is Submitted && wakes(
            states[i],
            run,
        )
}

/// Whether the due step submits the request that wakes a run.
pub open spec fn wakes(state: WaitRecovery, run: RunRecord) -> bool {
    state.step matches WaitStep::Submit { at, request } && at < state.runs@.len()
        && state.runs@[at as int] == run && is_wake(request, run)
}

/// Whether a reply lists a run that waits for background tasks.
pub open spec fn lists_wait(reply: WaitReply, run: RunRecord) -> bool {
    reply matches WaitReply::Runs(Ok(page)) && page.items@.contains(run) && waits_for_tasks(run)
}

/// How many of the collected runs a recovery of waits has behind it.
spec fn waits_behind(state: WaitRecovery) -> int {
    match state.step {
        WaitStep::ListWaiting { .. } => 0,
        WaitStep::Submit { at, .. } => at as int,
        WaitStep::Done { outcome } => if outcome is Ok {
            state.runs@.len() as int
        } else {
            0
        },
    }
}

proof fn lemma_uncovered_is_next(runs: Seq<RunRecord>, queued: Seq<String>, at: int)
    requires
        0 <= at <= runs.len(),
    ensures
        at <= next_uncovered(runs, queued, at) <= runs.len(),
        forall|j: int|
            at <= j < next_uncovered(runs, queued, at) ==> names(
                queued,
                (#[trigger] runs[j]).thread_id@,
            ),
    decreases runs.len() - at,
{
    if at < runs.len() && names(queued, runs[at].thread_id@) {
        lemma_uncovered_is_next(runs, queued, at + 1);
    }
}

proof fn lemma_waits_are_collected(
    states: Seq<WaitRecovery>,
    replies: Seq<WaitReply>,
    at: int,
)
    requires
        is_wait_recovery(states, replies),
        0 <= at < states.len(),
    ensures
        states[at].queued == states[0].queued,
        forall|i: int, run: RunRecord|
            0 <= i < at && #[trigger] lists_wait(replies[i], run)
                ==> states[at].runs@.contains(run),
        forall|k: int|
            0 <= k < waits_behind(states[at]) ==> names(
                states[0].queued@,
                (#[trigger] states[at].runs@[k]).thread_id@,
            ) || was_woken(states, replies, at, states[at].runs@[k]),
    decreases at,
{
    if at > 0 {
        lemma_waits_are_collected(states, replies, at - 1);
        lemma_only_orphaned_waits_are_woken(states, replies, at - 1);
        let before = states[at - 1];
        let reply = replies[at - 1];
        let after = states[at];
        assert(wait_answers(before, reply));
        assert(wait_follows(before, reply, after));
        assert forall|i: int, run: RunRecord|
            0 <= i < at && #[trigger] lists_wait(
                replies[i],
                run,
            ) implies after.runs@.contains(run) by {
            if i < at - 1 {
                assert(before.runs@.contains(run));
                let k = choose|k: int| 0 <= k < before.runs@.len() && before.runs@[k] == run;
                assert(after.runs@[k] == run);
            } else {
                let items = reply->Runs_0->Ok_0.items@;
                let k = choose|k: int| 0 <= k < items.len() && items[k] == run;
                assert(background_waits()(items[k]));
                items.lemma_filter_contains(background_waits(), k);
                let kept = items.filter(background_waits());
                let j = choose|j: int| 0 <= j < kept.len() && kept[j] == run;
                assert(with_background_waits(before.runs@, items)[before.runs@.len() + j] == run);
            }
        }
        let from: int = match before.step {
            WaitStep::Submit { at: i, .. } => i + 1,
            _ => 0,
        };
        lemma_uncovered_is_next(after.runs@, before.queued@, from);
        assert forall|k: int| 0 <= k < waits_behind(after) implies names(
            states[0].queued@,
            (#[trigger] after.runs@[k]).thread_id@,
        ) || was_woken(states, replies, at, after.runs@[k]) by {
            let run = after.runs@[k];
            if k < waits_behind(before) {
                assert(run == before.runs@[k]);
                if !names(states[0].queued@, run.thread_id@) {
                    assert(was_woken(states, replies, at - 1, before.runs@[k]));
                    let i = choose|i: int|
                        0 <= i < at - 1 && (#[trigger] states[i]).step is Submit
                            && replies[i] is Submitted && wakes(states[i], run);
                    assert(0 <= i < at && states[i].step is Submit && replies[i] is Submitted
                        && wakes(states[i], run));
                }
            } else if before.step is Submit && k == from - 1 {
                assert(states[at - 1].step is Submit && wakes(states[at - 1], run));
            } else {
                assert(from <= k < next_uncovered(after.runs@, before.queued@, from));
            }
        }
    }
}

/// No run that waits for background tasks is left asleep: once the recovery of waits has
/// succeeded, every one that was listed was woken, unless something was queued on its
/// thread.
pub proof fn lemma_every_orphaned_wait_is_woken(
    states: Seq<WaitRecovery>,
    replies: Seq<WaitReply>,
    at: int,
    i: int,
    run: RunRecord,
)
    requires
        is_wait_recovery(states, replies),
        0 <= i < at < states.len(),
        states[at].step matches WaitStep::Done { outcome: Ok(_) },
        lists_wait(replies[i], run),
        !names(states[0].queued@, run.thread_id@),
    ensures
        was_woken(states, replies, at, run),
{
    lemma_waits_are_collected(states, replies, at);
    let k = choose|k: int| 0 <= k < states[at].runs@.len() && states[at].runs@[k] == run;
    assert(names(states[0].queued@, states[at].runs@[k].thread_id@) || was_woken(
        states,
        replies,
        at,
        states[at].runs@[k],
    ));
}

/// How many requests the first `n` replies say were submitted.
pub open spec fn wakes_submitted(replies: Seq<WaitReply>, n: int) -> int
    decreases n,
{
    if n <= 0 {
        0
    } else {
        wakes_submitted(replies, n - 1) + (if replies[n - 1] is Submitted {
            1int
        } else {
            0int
        })
    }
}

/// The scan of waits reads every page, each from where the one before it ended, and counts
/// the runs that it woke. A request that is not taken ends it with the fault, and so does
/// a store that fails.
pub proof fn lemma_wait_recovery_counts_the_woken(
    states: Seq<WaitRecovery>,
    replies: Seq<WaitReply>,
    at: int,
)
    requires
        is_wait_recovery(states, replies),
        states[0].total == 0,
        0 <= at < states.len(),
    ensures
        states[at].total == wakes_submitted(replies, at),
        states[at].step matches WaitStep::Done { outcome: Ok(total) } ==> total == wakes_submitted(
            replies,
            at,
        ),
        states[at].step matches WaitStep::Done { outcome: Err(fault) } ==> at > 0 && (replies[at
            - 1] == WaitReply::NotSubmitted(fault) || (replies[at - 1] matches WaitReply::Runs(
            Err(error),
        ) && fault == Fault::Store(error))),
        states[at].step matches WaitStep::ListWaiting { offset } ==> at == 0 || (
        states[at - 1].step matches WaitStep::ListWaiting { offset: before } && (
        replies[at - 1] matches WaitReply::Runs(Ok(page)) && page.has_more && page.items@.len() > 0
            && offset == before + page.items@.len())),
    decreases at,
{
    if at > 0 {
        lemma_wait_recovery_counts_the_woken(states, replies, at - 1);
        assert(wait_answers(states[at - 1], replies[at - 1]));
        assert(wait_follows(states[at - 1], replies[at - 1], states[at]));
    }
}

/// A run is woken by a request that continues it on its thread with its agent, as a wake
/// from inside, with one message that users do not see.
pub proof fn lemma_wake_continues_the_run(request: RunActivation, run: RunRecord)
    requires
        is_wake(request, run),
    ensures
        request.intent.thread_id == run.thread_id,
        request.intent.agent_id == Some(run.agent_id),
        request.intent.kind == (RunKind::HitlResume { run_id: run.run_id }),
        request.trace.run_mode == RunMode::InternalWake,
        request.trace.origin == RunOrigin::Internal,
        request.messages@.len() == 1,
        request.messages@[0].role == Role::User,
        request.messages@[0].visibility == Visibility::Internal,
        request.messages@[0].content@.len() == 1,
        request.messages@[0].content@[0] matches ContentBlock::Text { text } && text@
            == "<background-tasks-updated />"@,
        request.control.seeded_decisions@.len() == 0,
        !request.persistence.messages_already_persisted,
{
}

/// Whether a thread was seen to before the state `at` of a scan: it was reported, or its
/// latest run was found running.
pub open spec fn was_seen_to(
    scans: Seq<OrphanScan>,
    replies: Seq<OrphanReply>,
    at: int,
    thread: String,
) -> bool {
    exists|i: int| 0 <= i < at && #[trigger] sees_to(scans[i], replies[i], thread)
}

/// Whether a reply settles a thread of a scan.
pub open spec fn sees_to(scan: OrphanScan, reply: OrphanReply, thread: String) -> bool {
    match scan.step {
        OrphanStep::Surface { page, at } => at < page@.len() && page@[at as int] == thread,
        OrphanStep::LatestRun { page, at } => at < page@.len() && page@[at as int] == thread && (
        reply matches OrphanReply::Run(Ok(Some(run))) && run.status == RunStatus::Running),
        _ => false,
    }
}

/// The place that a scan is at in a page.
spec fn place_in(scan: OrphanScan, page: Vec<String>) -> int {
    match scan.step {
        OrphanStep::LatestRun { page: current, at } => if current == page {
            at as int
        } else {
            page@.len() as int
        },
        OrphanStep::Surface { page: current, at } => if current == page {
            at as int
        } else {
            page@.len() as int
        },
        _ => page@.len() as int,
    }
}

/// Whether a scan is over with a fault.
spec fn has_failed(scan: OrphanScan) -> bool {
    scan.step matches OrphanStep::Done { outcome } && outcome is Err
}

proof fn lemma_unqueued_is_next(page: Seq<String>, queued: Seq<String>, at: int)
    requires
        0 <= at <= page.len(),
    ensures
        at <= next_unqueued(page, queued, at) <= page.len(),
        forall|j: int|
            at <= j < next_unqueued(page, queued, at) ==> names(queued, (#[trigger] page[j])@),
    decreases page.len() - at,
{
    if at < page.len() && names(queued, page[at]@) {
        lemma_unqueued_is_next(page, queued, at + 1);
    }
}

proof fn lemma_pending_threads_are_seen_to(
    scans: Seq<OrphanScan>,
    replies: Seq<OrphanReply>,
    at: int,
    i: int,
    page: Vec<String>,
)
    requires
        is_orphan_scan(scans, replies),
        0 <= i < at < scans.len(),
        scans[i].step is ListPending,
        replies[i] == OrphanReply::Threads(Ok(page)),
    ensures
        !(scans[at].step is ListQueued),
        forall|k: int|
            0 <= k < page@.len() && (k < place_in(scans[at], page) && !has_failed(scans[at]))
                ==> names(scans[at].queued@, (#[trigger] page@[k])@) || was_seen_to(
                scans,
                replies,
                at,
                page@[k],
            ),
    decreases at,
{
    let before = scans[at - 1];
    let reply = replies[at - 1];
    let after = scans[at];
    assert(orphan_answers(before, reply));
    assert(orphan_follows(before, reply, after));
    let count: usize = page.len();
    assert(count == page@.len());
    if at - 1 > i {
        lemma_pending_threads_are_seen_to(scans, replies, at - 1, i, page);
        lemma_only_orphans_are_reported(scans, replies, at - 1);
    }
    if !has_failed(after) {
        let current: Option<Vec<String>> = match before.step {
            OrphanStep::LatestRun { page: p, .. } => Some(p),
            OrphanStep::Surface { page: p, .. } => Some(p),
            _ => None,
        };
        let from: int = match before.step {
            OrphanStep::LatestRun { at: j, .. } => j + 1,
            OrphanStep::Surface { at: j, .. } => j + 1,
            _ => 0,
        };
        if from <= page@.len() {
            lemma_unqueued_is_next(page@, before.queued@, from);
        }
        assert forall|k: int| 0 <= k < page@.len() && k < place_in(after, page) implies names(
            after.queued@,
            (#[trigger] page@[k])@,
        ) || was_seen_to(scans, replies, at, page@[k]) by {
            if at - 1 > i && k < place_in(before, page) {
                if !names(before.queued@, page@[k]@) {
                    assert(was_seen_to(scans, replies, at - 1, page@[k]));
                    let j = choose|j: int|
                        0 <= j < at - 1 && #[trigger] sees_to(scans[j], replies[j], page@[k]);
                    assert(sees_to(scans[j], replies[j], page@[k]));
                }
            } else if at - 1 > i && current == Some(page) && k == from - 1 {
                assert(sees_to(scans[at - 1], replies[at - 1], page@[k]));
            } else {
                assert(from <= k < next_unqueued(page@, before.queued@, from));
            }
        }
    }
}

/// No thread with pending messages is passed over: once the scan has succeeded, every
/// thread that was listed was reported, unless something was queued for it or its latest
/// run was running.
pub proof fn lemma_every_pending_thread_is_seen_to(
    scans: Seq<OrphanScan>,
    replies: Seq<OrphanReply>,
    at: int,
    i: int,
    page: Vec<String>,
    k: int,
)
    requires
        is_orphan_scan(scans, replies),
        0 <= i < at < scans.len(),
        scans[i].step is ListPending,
        replies[i] == OrphanReply::Threads(Ok(page)),
        scans[at].step matches OrphanStep::Done { outcome: Ok(_) },
        0 <= k < page@.len(),
    ensures
        names(scans[at].queued@, page@[k]@) || was_seen_to(scans, replies, at, page@[k]),
{
    lemma_pending_threads_are_seen_to(scans, replies, at, i, page);
}

/// How many threads the first `n` steps reported.
pub open spec fn threads_reported(scans: Seq<OrphanScan>, n: int) -> int
    decreases n,
{
    if n <= 0 {
        0
    } else {
        threads_reported(scans, n - 1) + (if scans[n - 1].step is Surface {
            1int
        } else {
            0int
        })
    }
}

/// The scan counts the threads that it reported. It goes on behind the last thread of a
/// page of two hundred and fifty-six, and ends behind a shorter one; a store that fails
/// ends it with the fault.
pub proof fn lemma_orphan_scan_counts_the_reported(
    scans: Seq<OrphanScan>,
    replies: Seq<OrphanReply>,
    at: int,
)
    requires
        is_orphan_scan(scans, replies),
        scans[0].orphaned == 0,
        0 <= at < scans.len(),
    ensures
        scans[at].orphaned == threads_reported(scans, at),
        scans[at].step matches OrphanStep::Done { outcome: Ok(total) } ==> total
            == threads_reported(scans, at),
        scans[at].step matches OrphanStep::Done { outcome: Err(fault) } ==> at > 0 && (exists|
            error: StorageError,
        |
            fault == Fault::Store(error) && (replies[at - 1] == OrphanReply::Threads(Err(error))
                || replies[at - 1] == OrphanReply::Run(Err(error)))),
        scans[at].step matches OrphanStep::ListPending { after } ==> at > 0 && (after is None
            <==> scans[at - 1].step is ListQueued) && (after matches Some(last) ==> exists|
            page: Vec<String>,
        |
            page@.len() >= 256 && #[trigger] page@.last() == last),
    decreases at,
{
    if at > 0 {
        lemma_orphan_scan_counts_the_reported(scans, replies, at - 1);
        let before = scans[at - 1];
        assert(orphan_answers(before, replies[at - 1]));
        assert(orphan_follows(before, replies[at - 1], scans[at]));
        match scans[at].step {
            OrphanStep::Done { outcome: Err(fault) } => {
                let error = fault->Store_0;
                assert(fault == Fault::Store(error));
            },
            OrphanStep::ListPending { after: Some(last) } => {
                let page: Vec<String> = match (before.step, replies[at - 1]) {
                    (OrphanStep::LatestRun { page, .. }, _) => page,
                    (OrphanStep::Surface { page, .. }, _) => page,
                    (_, OrphanReply::Threads(Ok(page))) => page,
                    _ => arbitrary(),
                };
                assert(page@.len() >= 256 && page@.last() == last);
            },
            _ => {},
        }
    }
}

/// A scan for orphaned threads begins with the queued ones where there is a pending store,
/// and has nothing to find where there is none.
pub proof fn lemma_scan_needs_a_pending_store(
    has_pending_store: bool,
    queued: Vec<String>,
    begun: OrphanScan,
)
    requires
        call_ensures(
            OrphanScan::recover_orphaned_pending_threads,
            (has_pending_store, queued),
            begun,
        ),
    ensures
        begun.queued == queued,
        begun.orphaned == 0,
        has_pending_store <==> begun.step is ListQueued,
        !has_pending_store ==> begun.step == (OrphanStep::Done { outcome: Ok(0) }),
{
}

/// The threads that a recovery of prepared runs takes up are in ascending order, so that
/// none of them is taken up twice.
pub proof fn lemma_recovered_threads_are_in_order(
    states: Seq<PreparedRecovery>,
    replies: Seq<PreparedReply>,
    i: int,
    a: int,
    b: int,
)
    requires
        is_prepared_recovery(states, replies),
        0 <= i < states.len(),
        0 <= a < b < states[i].threads@.len(),
    ensures
        precedes(states[i].threads@[a]@, states[i].threads@[b]@),
        states[i].threads@[a]@ != states[i].threads@[b]@,
{
    lemma_threads_stay_in_order(states, replies, i);
    let threads = states[i].threads@;
    lemma_precedes_is_total(threads[a]@, threads[b]@);
}

proof fn lemma_threads_stay_in_order(
    states: Seq<PreparedRecovery>,
    replies: Seq<PreparedReply>,
    i: int,
)
    requires
        is_prepared_recovery(states, replies),
        0 <= i < states.len(),
    ensures
        is_ascending(states[i].threads@),
    decreases i,
{
    if i > 0 {
        lemma_threads_stay_in_order(states, replies, i - 1);
        assert(prepared_follows(states[i - 1], replies[i - 1], states[i]));
    }
}

} // verus!
