//! The freeze of pending messages at a boundary of a run.
//!
//! A freeze reads the committed log and the pending queue, selects what is due,
//! and commits the selection together with the run record in one transaction. A
//! conflicting transaction leaves nothing behind, and the freeze starts over from
//! what the run record said before it.

use vstd::prelude::*;

use crate::delivery::{DeliveryBoundary, DeliveryMode, MessageRecord, PendingMessageRecord};
use crate::error::{Fault, StorageError, MAX_PENDING_FREEZE_ATTEMPTS};
use crate::lists::{lists, names};
use crate::mailbox::checkpoint_repair::CheckpointRepairTask;
use crate::mailbox::helpers::build_run_input;
use crate::mailbox::pending_delivery::{is_queue_with, simulate_append};
use crate::message::{messages_view, texts, Message};
use crate::run::{
    copy_texts, whole_log_input, RunActivationSnapshot, RunInputSnapshot, RunInputView,
    RunMessageInput, RunRecord,
};

verus! {

/// Messages that a freeze appends to the queue in the same transaction.
#[derive(Debug, PartialEq)]
pub struct Append {
    pub messages: Vec<Message>,
    pub mode: DeliveryMode,
}

/// What a freeze is for: a boundary of a run on a thread, with messages to append
/// where a submit brings some.
#[derive(Debug, PartialEq)]
pub struct FreezeScope {
    pub thread_id: String,
    pub run_id: String,
    pub boundary: DeliveryBoundary,
    pub append: Option<Append>,
}

/// The run record as an attempt would commit it, and what it replaced in the
/// record and in the activation snapshot that it was made from.
#[derive(Debug, PartialEq)]
pub struct Attempt {
    pub record: RunRecord,
    pub replaced_activation: Option<RunActivationSnapshot>,
    pub replaced_input: Option<RunMessageInput>,
    pub replaced_updated_at: u64,
    pub template_input: RunInputSnapshot,
}

/// The operation that is due in a freeze.
#[derive(Debug, PartialEq)]
pub enum FreezeStep {
    /// Load the committed messages of the thread.
    LoadCommitted { attempts: usize, record: RunRecord, template: RunActivationSnapshot },
    /// Load the pending messages of the thread.
    LoadPending {
        attempts: usize,
        record: RunRecord,
        template: RunActivationSnapshot,
        existing: Vec<Message>,
    },
    /// Select the entries of the queue that are due at the boundary.
    Select {
        attempts: usize,
        record: RunRecord,
        template: RunActivationSnapshot,
        existing: Vec<Message>,
        queue: Vec<PendingMessageRecord>,
    },
    /// Append what is to be appended, and freeze the selected entries, together
    /// with the run record, if the log still has as many messages as `existing`.
    Commit {
        attempts: usize,
        attempt: Attempt,
        existing: Vec<Message>,
        selected_pending_ids: Vec<String>,
        first_seq: u64,
        last_seq: u64,
    },
    /// Publish the checkpoint events of the new messages.
    Publish {
        record: RunRecord,
        log: Vec<Message>,
        frozen: Vec<MessageRecord>,
        first_seq: u64,
        last_seq: u64,
    },
    /// Queue the repair of checkpoint events that could not be published.
    QueueRepair {
        record: RunRecord,
        log: Vec<Message>,
        frozen: Vec<MessageRecord>,
        task: CheckpointRepairTask,
    },
    /// Refresh the worker's cache of the thread.
    RefreshCache { record: RunRecord, log: Vec<Message>, frozen: Vec<MessageRecord> },
    /// The freeze is over. The record is as the store has it.
    Done { record: RunRecord, outcome: Result<Option<Vec<MessageRecord>>, Fault> },
}

/// The reply to the operation of a step. Times are in seconds.
#[derive(Debug, PartialEq)]
pub enum FreezeReply {
    Committed(Result<Option<Vec<Message>>, StorageError>),
    Pending(Result<Vec<PendingMessageRecord>, StorageError>),
    Selected { indexes: Vec<usize>, now: u64 },
    Frozen(Result<Vec<MessageRecord>, StorageError>),
    Published { failed: bool },
    Performed,
}

/// How many messages a freeze appends.
pub open spec fn appended_count(scope: FreezeScope) -> nat {
    match scope.append {
        Some(append) => append.messages@.len(),
        None => 0,
    }
}

/// Whether a reply is one that the operation of a step gives: a selection is one
/// of the queue, and the log and the queue can be counted.
pub open spec fn freeze_answers(scope: FreezeScope, step: FreezeStep, reply: FreezeReply) -> bool {
    match step {
        FreezeStep::LoadCommitted { .. } => reply is Committed,
        FreezeStep::LoadPending { .. } => match reply {
            FreezeReply::Pending(Ok(stored)) => stored@.len() + appended_count(scope) < u64::MAX,
            FreezeReply::Pending(Err(_)) => true,
            _ => false,
        },
        FreezeStep::Select { existing, queue, .. } => reply matches FreezeReply::Selected {
            indexes,
            ..
        } && existing@.len() + indexes@.len() < u64::MAX && forall|i: int|
            0 <= i < indexes@.len() ==> #[trigger] indexes@[i] < queue@.len(),
        FreezeStep::Commit { attempt, .. } => reply is Frozen && attempt.record.activation is Some,
        FreezeStep::Publish { .. } => reply is Published,
        FreezeStep::QueueRepair { .. } => reply is Performed,
        FreezeStep::RefreshCache { .. } => reply is Performed,
        FreezeStep::Done { .. } => false,
    }
}

/// The trigger ids of a run after it consumed more messages: those it had, and
/// behind them the new ones that it did not have.
pub open spec fn merged_triggers(prior: Seq<Seq<char>>, new: Seq<Seq<char>>) -> Seq<Seq<char>>
    decreases new.len(),
{
    if new.len() == 0 {
        prior
    } else {
        let merged = merged_triggers(prior, new.drop_last());
        if merged.contains(new.last()) {
            merged
        } else {
            merged.push(new.last())
        }
    }
}

/// The trigger ids that a run record already has.
pub open spec fn prior_triggers(record: RunRecord) -> Seq<Seq<char>> {
    match record.input {
        Some(input) => texts(input.trigger_message_ids@),
        None => seq![],
    }
}

/// The first selected entry whose message has no id.
pub open spec fn first_without_id(
    queue: Seq<PendingMessageRecord>,
    indexes: Seq<usize>,
    at: int,
) -> bool {
    &&& 0 <= at < indexes.len()
    &&& queue[indexes[at] as int].message.id is None
    &&& forall|i: int| 0 <= i < at ==> queue[#[trigger] indexes[i] as int].message.id is Some
}

/// The message ids of the selected entries.
pub open spec fn selected_message_ids(queue: Seq<PendingMessageRecord>, indexes: Seq<usize>) -> Seq<
    Seq<char>,
> {
    indexes.map_values(|k: usize| queue[k as int].message.id->0@)
}

/// The pending ids of the selected entries.
pub open spec fn selected_pending(queue: Seq<PendingMessageRecord>, indexes: Seq<usize>) -> Seq<
    String,
> {
    indexes.map_values(|k: usize| queue[k as int].pending_id)
}

/// The run record that an attempt was made from.
pub open spec fn base_record(attempt: Attempt) -> RunRecord {
    RunRecord {
        activation: attempt.replaced_activation,
        input: attempt.replaced_input,
        updated_at: attempt.replaced_updated_at,
        ..attempt.record
    }
}

/// The activation snapshot that an attempt was made from.
pub open spec fn base_template(attempt: Attempt) -> RunActivationSnapshot {
    RunActivationSnapshot { input: attempt.template_input, ..attempt.record.activation->0 }
}

/// Whether an attempt records the given input in the record and the snapshot that
/// it was made from, and changes nothing else but the time of the update.
pub open spec fn is_attempt(
    attempt: Attempt,
    record: RunRecord,
    template: RunActivationSnapshot,
    input: RunInputView,
    now: u64,
) -> bool {
    &&& base_record(attempt) == record
    &&& attempt.record.activation matches Some(snapshot) && snapshot.input@ == input
    &&& base_template(attempt) == template
    &&& attempt.record.input matches Some(recorded) && recorded@ == input
    &&& attempt.record.updated_at == now
}

/// The step that a selection leads to.
pub open spec fn after_selection(
    scope: FreezeScope,
    step: FreezeStep,
    indexes: Seq<usize>,
    now: u64,
    next: FreezeStep,
) -> bool {
    match step {
        FreezeStep::Select { attempts, record, template, existing, queue } => {
            if indexes.len() == 0 {
                next == (FreezeStep::Done { record, outcome: Ok(None) })
            } else if exists|at: int| first_without_id(queue@, indexes, at) {
                exists|at: int| #[trigger]
                    first_without_id(queue@, indexes, at) && next == (FreezeStep::Done {
                        record,
                        outcome: Err(
                            Fault::PendingWithoutMessageId {
                                pending_id: queue@[indexes[at] as int].pending_id,
                            },
                        ),
                    })
            } else {
                let last = (existing@.len() + indexes.len()) as u64;
                &&& next matches FreezeStep::Commit {
                    attempts: k,
                    attempt,
                    existing: kept,
                    selected_pending_ids,
                    first_seq,
                    last_seq,
                }
                &&& k == attempts
                &&& kept == existing
                &&& first_seq == existing@.len() + 1
                &&& last_seq == last
                &&& selected_pending_ids@ == selected_pending(queue@, indexes)
                &&& is_attempt(
                    attempt,
                    record,
                    template,
                    whole_log_input(
                        scope.thread_id@,
                        last,
                        merged_triggers(
                            prior_triggers(record),
                            selected_message_ids(queue@, indexes),
                        ),
                    ),
                    now,
                )
            }
        },
        _ => false,
    }
}

/// Whether `next` is a step that a reply may lead to.
pub open spec fn freeze_follows(
    scope: FreezeScope,
    step: FreezeStep,
    reply: FreezeReply,
    next: FreezeStep,
) -> bool {
    match (step, reply) {
        (
            FreezeStep::LoadCommitted { attempts, record, template },
            FreezeReply::Committed(result),
        ) => match result {
            Err(error) => next == (FreezeStep::Done { record, outcome: Err(Fault::Store(error)) }),
            Ok(Some(existing)) => next == (FreezeStep::LoadPending {
                attempts,
                record,
                template,
                existing,
            }),
            Ok(None) => next matches FreezeStep::LoadPending {
                attempts: k,
                record: r,
                template: t,
                existing,
            } && k == attempts && r == record && t == template && existing@.len() == 0,
        },
        (
            FreezeStep::LoadPending { attempts, record, template, existing },
            FreezeReply::Pending(result),
        ) => match result {
            Err(error) => next == (FreezeStep::Done { record, outcome: Err(Fault::Store(error)) }),
            Ok(stored) => next matches FreezeStep::Select {
                attempts: k,
                record: r,
                template: t,
                existing: e,
                queue,
            } && k == attempts && r == record && t == template && e == existing && (
            match scope.append {
                Some(append) => is_queue_with(
                    queue@,
                    stored@,
                    scope.thread_id@,
                    append.messages@,
                    append.mode,
                ),
                None => queue == stored,
            }),
        },
        (FreezeStep::Select { .. }, FreezeReply::Selected { indexes, now }) => after_selection(
            scope,
            step,
            indexes@,
            now,
            next,
        ),
        (
            FreezeStep::Commit { attempts, attempt, existing, first_seq, last_seq, .. },
            FreezeReply::Frozen(result),
        ) => match result {
            Ok(frozen) => next matches FreezeStep::Publish {
                record,
                log,
                frozen: f,
                first_seq: from,
                last_seq: to,
            } && record == attempt.record && f == frozen && from == first_seq && to
                == last_seq && messages_view(log@) == messages_view(existing@) + frozen_messages(
                frozen@,
            ),
            Err(error) => if !error.conflict() {
                next == (FreezeStep::Done {
                    record: base_record(attempt),
                    outcome: Err(Fault::Store(error)),
                })
            } else if attempts + 1 < MAX_PENDING_FREEZE_ATTEMPTS {
                next == (FreezeStep::LoadCommitted {
                    attempts: (attempts + 1) as usize,
                    record: base_record(attempt),
                    template: base_template(attempt),
                })
            } else {
                next == (FreezeStep::Done {
                    record: base_record(attempt),
                    outcome: Err(
                        Fault::FreezeRetriesExhausted {
                            boundary: scope.boundary,
                            thread_id: scope.thread_id,
                        },
                    ),
                })
            },
        },
        (
            FreezeStep::Publish { record, log, frozen, first_seq, last_seq },
            FreezeReply::Published { failed },
        ) => next == (if failed {
            FreezeStep::QueueRepair {
                record,
                log,
                frozen,
                task: CheckpointRepairTask {
                    thread_id: scope.thread_id,
                    run_id: scope.run_id,
                    first_seq,
                    last_seq,
                },
            }
        } else {
            FreezeStep::RefreshCache { record, log, frozen }
        }),
        (FreezeStep::QueueRepair { record, log, frozen, .. }, _) => next
            == (FreezeStep::RefreshCache { record, log, frozen }),
        (FreezeStep::RefreshCache { record, frozen, .. }, _) => next == (FreezeStep::Done {
            record,
            outcome: Ok(Some(frozen)),
        }),
        _ => false,
    }
}

/// What the frozen messages hold.
pub open spec fn frozen_messages(frozen: Seq<MessageRecord>) -> Seq<crate::message::MessageView> {
    frozen.map_values(|m: MessageRecord| m.message@)
}

/// A freeze and the operation that is due in it.
#[derive(Debug, PartialEq)]
pub struct PendingFreeze {
    pub scope: FreezeScope,
    pub step: FreezeStep,
}

fn merge_triggers(prior: &Vec<String>, new: &Vec<String>) -> (r: Vec<String>)
    ensures
        texts(r@) == merged_triggers(texts(prior@), texts(new@)),
{
    let mut out = copy_texts(prior);
    let mut i: usize = 0;
    assert(texts(new@.take(0)) =~= Seq::<Seq<char>>::empty());
    while i < new.len()
        invariant
            i <= new@.len(),
            texts(out@) == merged_triggers(texts(prior@), texts(new@.take(i as int))),
        decreases new@.len() - i,
    {
        proof {
            assert(texts(new@.take(i as int + 1)).drop_last() =~= texts(new@.take(i as int)));
            assert(texts(new@.take(i as int + 1)).last() == new@[i as int]@);
        }
        let listed = known(&out, &new[i]);
        if !listed {
            let ghost before = out@;
            out.push(new[i].clone());
            assert(texts(out@) =~= texts(before).push(new@[i as int]@));
        }
        i = i + 1;
    }
    assert(new@.take(i as int) =~= new@);
    out
}

/// The log with the frozen messages at its end.
fn extend_log(existing: Vec<Message>, frozen: &Vec<MessageRecord>) -> (r: Vec<Message>)
    ensures
        messages_view(r@) == messages_view(existing@) + frozen_messages(frozen@),
{
    let mut log = existing;
    let mut i: usize = 0;
    assert(frozen_messages(frozen@.take(0)) =~= Seq::empty());
    assert(messages_view(existing@) + Seq::empty() =~= messages_view(existing@));
    while i < frozen.len()
        invariant
            i <= frozen@.len(),
            messages_view(log@) == messages_view(existing@) + frozen_messages(
                frozen@.take(i as int),
            ),
        decreases frozen@.len() - i,
    {
        let message = frozen[i].message.clone();
        let ghost before = log@;
        log.push(message);
        proof {
            assert(messages_view(log@) =~= messages_view(before).push(message@));
            assert(frozen_messages(frozen@.take(i as int + 1)) =~= frozen_messages(
                frozen@.take(i as int),
            ).push(frozen@[i as int].message@));
            assert(messages_view(log@) =~= messages_view(existing@) + frozen_messages(
                frozen@.take(i as int + 1),
            ));
        }
        i = i + 1;
    }
    assert(frozen@.take(i as int) =~= frozen@);
    log
}

/// The record and the snapshot that an attempt was made from, as they were.
fn undo(attempt: Attempt) -> (r: (RunRecord, RunActivationSnapshot))
    requires
        attempt.record.activation is Some,
    ensures
        r.0 == base_record(attempt),
        r.1 == base_template(attempt),
{
    let mut record = attempt.record;
    let snapshot = record.activation.take();
    record.activation = attempt.replaced_activation;
    record.input = attempt.replaced_input;
    record.updated_at = attempt.replaced_updated_at;
    let mut template = snapshot.unwrap();
    template.input = attempt.template_input;
    (record, template)
}

fn all_below(indexes: &Vec<usize>, bound: usize) -> (r: bool)
    ensures
        r == (forall|i: int| 0 <= i < indexes@.len() ==> #[trigger] indexes@[i] < bound),
{
    let mut i: usize = 0;
    while i < indexes.len()
        invariant
            i <= indexes@.len(),
            forall|k: int| 0 <= k < i ==> #[trigger] indexes@[k] < bound,
        decreases indexes@.len() - i,
    {
        if indexes[i] >= bound {
            return false;
        }
        i = i + 1;
    }
    true
}

fn known(v: &Vec<String>, t: &String) -> (r: bool)
    ensures
        r == texts(v@).contains(t@),
{
    let r = lists(v, t);
    proof {
        if names(v@, t@) {
            let i = choose|i: int| 0 <= i < v@.len() && #[trigger] v@[i]@ == t@;
            assert(texts(v@)[i] == t@);
        }
        if texts(v@).contains(t@) {
            let i = choose|i: int| 0 <= i < texts(v@).len() && texts(v@)[i] == t@;
            assert(v@[i]@ == t@);
        }
    }
    r
}

impl PendingFreeze {
    /// Begin a freeze. Without a pending store there is nothing to freeze.
    pub fn prepare_pending_boundary_snapshot_for_run(
        has_pending_store: bool,
        scope: FreezeScope,
        template: RunActivationSnapshot,
        record: RunRecord,
    ) -> (r: PendingFreeze)
        ensures
            r.scope == scope,
            r.step == (if has_pending_store {
                FreezeStep::LoadCommitted { attempts: 0, record, template }
            } else {
                FreezeStep::Done { record, outcome: Ok(None) }
            }),
    {
        let step = if has_pending_store {
            FreezeStep::LoadCommitted { attempts: 0, record, template }
        } else {
            FreezeStep::Done { record, outcome: Ok(None) }
        };
        PendingFreeze { scope, step }
    }

    fn select(
        scope: &FreezeScope,
        attempts: usize,
        record: RunRecord,
        template: RunActivationSnapshot,
        existing: Vec<Message>,
        queue: Vec<PendingMessageRecord>,
        indexes: Vec<usize>,
        now: u64,
    ) -> (r: FreezeStep)
        requires
            existing@.len() + indexes@.len() < u64::MAX,
            forall|i: int| 0 <= i < indexes@.len() ==> #[trigger] indexes@[i] < queue@.len(),
        ensures
            after_selection(
                *scope,
                FreezeStep::Select { attempts, record, template, existing, queue },
                indexes@,
                now,
                r,
            ),
    {
        if indexes.len() == 0 {
            return FreezeStep::Done { record, outcome: Ok(None) };
        }
        let mut pending_ids: Vec<String> = Vec::new();
        let mut message_ids: Vec<String> = Vec::new();
        let mut i: usize = 0;
        while i < indexes.len()
            invariant
                i <= indexes@.len(),
                indexes@.len() > 0,
                forall|k: int| 0 <= k < indexes@.len() ==> #[trigger] indexes@[k] < queue@.len(),
                forall|k: int|
                    0 <= k < i ==> queue@[#[trigger] indexes@[k] as int].message.id is Some,
                pending_ids@.len() == i,
                message_ids@.len() == i,
                forall|k: int|
                    0 <= k < i ==> #[trigger] pending_ids@[k] == queue@[indexes@[k] as int].pending_id,
                forall|k: int|
                    0 <= k < i ==> #[trigger] message_ids@[k]
                        == queue@[indexes@[k] as int].message.id->0,
            decreases indexes@.len() - i,
        {
            let entry = &queue[indexes[i]];
            match &entry.message.id {
                Some(id) => {
                    pending_ids.push(entry.pending_id.clone());
                    message_ids.push(id.clone());
                },
                None => {
                    assert(first_without_id(queue@, indexes@, i as int));
                    return FreezeStep::Done {
                        record,
                        outcome: Err(
                            Fault::PendingWithoutMessageId { pending_id: entry.pending_id.clone() },
                        ),
                    };
                },
            }
            i = i + 1;
        }
        assert forall|at: int| !first_without_id(queue@, indexes@, at) by {
            if 0 <= at < indexes@.len() {
                assert(queue@[indexes@[at] as int].message.id is Some);
            }
        }
        assert(pending_ids@ =~= selected_pending(queue@, indexes@));
        assert(texts(message_ids@) =~= selected_message_ids(queue@, indexes@));
        let first_seq: u64 = existing.len() as u64 + 1;
        let last_seq: u64 = existing.len() as u64 + pending_ids.len() as u64;
        let triggers = match &record.input {
            Some(input) => merge_triggers(&input.trigger_message_ids, &message_ids),
            None => {
                let none: Vec<String> = Vec::new();
                assert(texts(none@) =~= Seq::<Seq<char>>::empty());
                merge_triggers(&none, &message_ids)
            },
        };
        let (snapshot_input, input) = build_run_input(scope.thread_id.as_str(), last_seq, &triggers);
        let mut snapshot = template;
        let template_input = snapshot.input;
        snapshot.input = snapshot_input;
        let mut attempted = record;
        let replaced_activation = attempted.activation;
        let replaced_input = attempted.input;
        let replaced_updated_at: u64 = attempted.updated_at;
        attempted.activation = Some(snapshot);
        attempted.input = Some(input);
        attempted.updated_at = now;
        FreezeStep::Commit {
            attempts,
            attempt: Attempt {
                record: attempted,
                replaced_activation,
                replaced_input,
                replaced_updated_at,
                template_input,
            },
            existing,
            selected_pending_ids: pending_ids,
            first_seq,
            last_seq,
        }
    }

    /// Whether a reply is one that the operation of the due step gives.
    pub fn expects(&self, reply: &FreezeReply) -> (r: bool)
        ensures
            r == freeze_answers(self.scope, self.step, *reply),
    {
        let appended: u128 = match &self.scope.append {
            Some(append) => append.messages.len() as u128,
            None => 0,
        };
        match (&self.step, reply) {
            (FreezeStep::LoadCommitted { .. }, FreezeReply::Committed(_)) => true,
            (FreezeStep::LoadPending { .. }, FreezeReply::Pending(result)) => match result {
                Ok(stored) => (stored.len() as u128) + appended < u64::MAX as u128,
                Err(_) => true,
            },
            (
                FreezeStep::Select { existing, queue, .. },
                FreezeReply::Selected { indexes, .. },
            ) => (existing.len() as u128) + (indexes.len() as u128) < u64::MAX as u128
                && all_below(indexes, queue.len()),
            (FreezeStep::Commit { attempt, .. }, FreezeReply::Frozen(_)) =>
            attempt.record.activation.is_some(),
            (FreezeStep::Publish { .. }, FreezeReply::Published { .. }) => true,
            (FreezeStep::QueueRepair { .. }, FreezeReply::Performed) => true,
            (FreezeStep::RefreshCache { .. }, FreezeReply::Performed) => true,
            _ => false,
        }
    }

    /// Take the reply to the operation that was due.
    pub fn advance(self, reply: FreezeReply) -> (r: PendingFreeze)
        requires
            freeze_answers(self.scope, self.step, reply),
        ensures
            r.scope == self.scope,
            freeze_follows(self.scope, self.step, reply, r.step),
    {
        let scope = self.scope;
        let step = match (self.step, reply) {
            (
                FreezeStep::LoadCommitted { attempts, record, template },
                FreezeReply::Committed(result),
            ) => match result {
                Err(error) => FreezeStep::Done { record, outcome: Err(Fault::Store(error)) },
                Ok(Some(existing)) => FreezeStep::LoadPending {
                    attempts,
                    record,
                    template,
                    existing,
                },
                Ok(None) => FreezeStep::LoadPending {
                    attempts,
                    record,
                    template,
                    existing: Vec::new(),
                },
            },
            (
                FreezeStep::LoadPending { attempts, record, template, existing },
                FreezeReply::Pending(result),
            ) => match result {
                Err(error) => FreezeStep::Done { record, outcome: Err(Fault::Store(error)) },
                Ok(stored) => {
                    let queue = match &scope.append {
                        Some(append) => simulate_append(
                            stored,
                            &scope.thread_id,
                            &append.messages,
                            &append.mode,
                        ),
                        None => stored,
                    };
                    FreezeStep::Select { attempts, record, template, existing, queue }
                },
            },
            (
                FreezeStep::Select { attempts, record, template, existing, queue },
                FreezeReply::Selected { indexes, now },
            ) => Self::select(
                &scope,
                attempts,
                record,
                template,
                existing,
                queue,
                indexes,
                now,
            ),
            (
                FreezeStep::Commit {
                    attempts,
                    attempt,
                    existing,
                    selected_pending_ids: _,
                    first_seq,
                    last_seq,
                },
                FreezeReply::Frozen(result),
            ) => match result {
                Ok(frozen) => {
                    let log = extend_log(existing, &frozen);
                    FreezeStep::Publish { record: attempt.record, log, frozen, first_seq, last_seq }
                },
                Err(error) => {
                    let (record, template) = undo(attempt);
                    if !error.is_conflict() {
                        FreezeStep::Done { record, outcome: Err(Fault::Store(error)) }
                    } else if attempts < MAX_PENDING_FREEZE_ATTEMPTS - 1 {
                        FreezeStep::LoadCommitted { attempts: attempts + 1, record, template }
                    } else {
                        FreezeStep::Done {
                            record,
                            outcome: Err(
                                Fault::FreezeRetriesExhausted {
                                    boundary: scope.boundary,
                                    thread_id: scope.thread_id.clone(),
                                },
                            ),
                        }
                    }
                },
            },
            (
                FreezeStep::Publish { record, log, frozen, first_seq, last_seq },
                FreezeReply::Published { failed },
            ) => if failed {
                FreezeStep::QueueRepair {
                    record,
                    log,
                    frozen,
                    task: CheckpointRepairTask {
                        thread_id: scope.thread_id.clone(),
                        run_id: scope.run_id.clone(),
                        first_seq,
                        last_seq,
                    },
                }
            } else {
                FreezeStep::RefreshCache { record, log, frozen }
            },
            (FreezeStep::QueueRepair { record, log, frozen, task: _ }, _) =>
            FreezeStep::RefreshCache { record, log, frozen },
            (FreezeStep::RefreshCache { record, log: _, frozen }, _) => FreezeStep::Done {
                record,
                outcome: Ok(Some(frozen)),
            },
            (step, _) => step,
        };
        PendingFreeze { scope, step }
    }
}

/// A run keeps the triggers it had, in their order, and gains exactly the new ones
/// that it did not have: none is lost, none is listed twice, and none comes from
/// anywhere else.
pub proof fn lemma_merged_triggers(prior: Seq<Seq<char>>, new: Seq<Seq<char>>)
    ensures
        merged_triggers(prior, new).len() >= prior.len(),
        merged_triggers(prior, new).take(prior.len() as int) == prior,
        prior.no_duplicates() ==> merged_triggers(prior, new).no_duplicates(),
        forall|id: Seq<char>| #[trigger]
            merged_triggers(prior, new).contains(id) <==> prior.contains(id) || new.contains(id),
    decreases new.len(),
{
    let all = merged_triggers(prior, new);
    if new.len() == 0 {
        assert(prior.take(prior.len() as int) =~= prior);
    } else {
        let shorter = new.drop_last();
        lemma_merged_triggers(prior, shorter);
        let merged = merged_triggers(prior, shorter);
        assert(all.take(prior.len() as int) =~= merged.take(prior.len() as int));
        assert forall|id: Seq<char>| #[trigger] all.contains(id) <==> prior.contains(id)
            || new.contains(id) by {
            if new.contains(id) {
                let k = choose|k: int| 0 <= k < new.len() && new[k] == id;
                if k < shorter.len() {
                    assert(shorter[k] == id);
                    assert(shorter.contains(id));
                }
            }
            if shorter.contains(id) {
                let k = choose|k: int| 0 <= k < shorter.len() && shorter[k] == id;
                assert(new[k] == id);
            }
            if merged.contains(id) {
                let k = choose|k: int| 0 <= k < merged.len() && merged[k] == id;
                assert(all[k] == id);
            }
            if !merged.contains(new.last()) {
                assert(all[all.len() - 1] == new.last());
                if all.contains(id) && id != new.last() {
                    let k = choose|k: int| 0 <= k < all.len() && all[k] == id;
                    assert(merged[k] == id);
                }
            }
            assert(new[new.len() - 1] == new.last());
        }
    }
}

/// A freeze: the steps that were due and the replies to them. It begins with the
/// log of the thread, and each step follows from the one before.
pub open spec fn is_freeze(
    scope: FreezeScope,
    record: RunRecord,
    template: RunActivationSnapshot,
    steps: Seq<FreezeStep>,
    replies: Seq<FreezeReply>,
) -> bool {
    &&& steps.len() == replies.len() + 1
    &&& steps[0] == (FreezeStep::LoadCommitted { attempts: 0, record, template })
    &&& forall|i: int|
        #![trigger replies[i]]
        0 <= i < replies.len() ==> freeze_answers(scope, steps[i], replies[i]) && freeze_follows(
            scope,
            steps[i],
            replies[i],
            steps[i + 1],
        )
}

/// Whether the record is the one that the freeze committed in its step `at`: made
/// from the record as it was before the freeze and from the selection of the step
/// before, and from nothing else.
pub open spec fn committed_at(
    scope: FreezeScope,
    record: RunRecord,
    steps: Seq<FreezeStep>,
    replies: Seq<FreezeReply>,
    at: int,
    committed: RunRecord,
    frozen: Vec<MessageRecord>,
) -> bool {
    &&& 1 <= at < replies.len()
    &&& replies[at] == FreezeReply::Frozen(Ok(frozen))
    &&& replies[at - 1] matches FreezeReply::Selected { indexes, now }
    &&& steps[at - 1] matches FreezeStep::Select { existing, queue, .. }
    &&& committed == (RunRecord {
        activation: committed.activation,
        input: committed.input,
        updated_at: now,
        ..record
    })
    &&& committed.input matches Some(input) && input@ == whole_log_input(
        scope.thread_id@,
        (existing@.len() + indexes@.len()) as u64,
        merged_triggers(prior_triggers(record), selected_message_ids(queue@, indexes@)),
    )
    &&& committed.activation matches Some(snapshot) && snapshot.input@ == committed.input->0@
}

/// Whether the freeze committed the record in a step before `at`.
pub open spec fn was_committed(
    scope: FreezeScope,
    record: RunRecord,
    steps: Seq<FreezeStep>,
    replies: Seq<FreezeReply>,
    at: int,
    committed: RunRecord,
    frozen: Vec<MessageRecord>,
) -> bool {
    exists|k: int|
        k < at && #[trigger] committed_at(scope, record, steps, replies, k, committed, frozen)
}

/// How many transactions a freeze has tried.
pub open spec fn commits_tried(steps: Seq<FreezeStep>) -> nat
    decreases steps.len(),
{
    if steps.len() == 0 {
        0
    } else {
        commits_tried(steps.drop_last()) + (if steps.last() is Commit {
            1nat
        } else {
            0nat
        })
    }
}

/// What holds of the step `at` of a freeze.
pub open spec fn freeze_invariant(
    scope: FreezeScope,
    record: RunRecord,
    template: RunActivationSnapshot,
    steps: Seq<FreezeStep>,
    replies: Seq<FreezeReply>,
    at: int,
) -> bool {
    let tried = commits_tried(steps.take(at + 1));
    match steps[at] {
        FreezeStep::LoadCommitted { attempts, record: r, template: t }
        | FreezeStep::LoadPending { attempts, record: r, template: t, .. }
        | FreezeStep::Select { attempts, record: r, template: t, .. } => r == record && t
            == template && attempts < MAX_PENDING_FREEZE_ATTEMPTS && tried == attempts,
        FreezeStep::Commit { attempts, attempt, existing, .. } => {
            &&& base_record(attempt) == record
            &&& base_template(attempt) == template
            &&& attempts < MAX_PENDING_FREEZE_ATTEMPTS
            &&& tried == attempts + 1
            &&& at >= 1
            &&& replies[at - 1] matches FreezeReply::Selected { indexes, now }
            &&& steps[at - 1] matches FreezeStep::Select { existing: e, queue, .. }
            &&& attempt.record.input matches Some(input) && input@ == whole_log_input(
                scope.thread_id@,
                (e@.len() + indexes@.len()) as u64,
                merged_triggers(prior_triggers(record), selected_message_ids(queue@, indexes@)),
            )
            &&& attempt.record.activation matches Some(snapshot) && snapshot.input@
                == attempt.record.input->0@
            &&& attempt.record.updated_at == now
        },
        FreezeStep::Publish { record: r, frozen, .. } => tried <= MAX_PENDING_FREEZE_ATTEMPTS
            && was_committed(scope, record, steps, replies, at, r, frozen),
        FreezeStep::QueueRepair { record: r, frozen, .. } => tried <= MAX_PENDING_FREEZE_ATTEMPTS
            && was_committed(scope, record, steps, replies, at, r, frozen),
        FreezeStep::RefreshCache { record: r, frozen, .. } => tried <= MAX_PENDING_FREEZE_ATTEMPTS
            && was_committed(scope, record, steps, replies, at, r, frozen),
        FreezeStep::Done { record: r, outcome } => tried <= MAX_PENDING_FREEZE_ATTEMPTS
            && match outcome {
            Ok(Some(frozen)) => was_committed(scope, record, steps, replies, at, r, frozen),
            _ => r == record,
        },
    }
}

proof fn lemma_stays_committed(
    scope: FreezeScope,
    record: RunRecord,
    steps: Seq<FreezeStep>,
    replies: Seq<FreezeReply>,
    at: int,
    committed: RunRecord,
    frozen: Vec<MessageRecord>,
)
    requires
        was_committed(scope, record, steps, replies, at, committed, frozen),
    ensures
        was_committed(scope, record, steps, replies, at + 1, committed, frozen),
{
    let k = choose|k: int|
        k < at && #[trigger] committed_at(scope, record, steps, replies, k, committed, frozen);
    assert(committed_at(scope, record, steps, replies, k, committed, frozen));
}

/// A freeze tries at most eight transactions. Where one of them commits, the run
/// record gains exactly the input of the selection that was committed, merged
/// with what the record had before the freeze: an attempt that met a conflict
/// leaves no trace, so no trigger that was not frozen is ever recorded. Where none
/// commits, the record is as it was.
#[verifier::spinoff_prover]
pub proof fn lemma_freeze_records_only_what_it_froze(
    scope: FreezeScope,
    record: RunRecord,
    template: RunActivationSnapshot,
    steps: Seq<FreezeStep>,
    replies: Seq<FreezeReply>,
    at: int,
)
    requires
        is_freeze(scope, record, template, steps, replies),
        0 <= at < steps.len(),
    ensures
        freeze_invariant(scope, record, template, steps, replies, at),
    decreases at,
{
    assert(steps.take(at + 1).drop_last() =~= steps.take(at));
    assert(steps.take(at + 1).last() == steps[at]);
    if at == 0 {
        assert(steps.take(0).len() == 0);
    } else {
        lemma_freeze_records_only_what_it_froze(scope, record, template, steps, replies, at - 1);
        assert(freeze_answers(scope, steps[at - 1], replies[at - 1]));
        assert(freeze_follows(scope, steps[at - 1], replies[at - 1], steps[at]));
        match steps[at - 1] {
            FreezeStep::Commit { attempt, .. } => {
                if let FreezeReply::Frozen(Ok(frozen)) = replies[at - 1] {
                    assert(committed_at(
                        scope,
                        record,
                        steps,
                        replies,
                        at - 1,
                        attempt.record,
                        frozen,
                    ));
                    assert(was_committed(
                        scope,
                        record,
                        steps,
                        replies,
                        at,
                        attempt.record,
                        frozen,
                    ));
                }
            },
            FreezeStep::Publish { record: r, frozen, .. } => {
                lemma_stays_committed(scope, record, steps, replies, at - 1, r, frozen);
            },
            FreezeStep::QueueRepair { record: r, frozen, .. } => {
                lemma_stays_committed(scope, record, steps, replies, at - 1, r, frozen);
            },
            FreezeStep::RefreshCache { record: r, frozen, .. } => {
                lemma_stays_committed(scope, record, steps, replies, at - 1, r, frozen);
            },
            _ => {},
        }
    }
}

/// What a freeze does with the replies to its lookups: the log that was read stands in the
/// commit, and the queue is what is pending with the messages of the submit behind it. A
/// selection of nothing ends the freeze without a commit; an entry without an id is a
/// fault; and any other selection is committed, behind the log, in the order of the
/// selection.
pub proof fn lemma_freeze_commits_the_selection(
    scope: FreezeScope,
    record: RunRecord,
    template: RunActivationSnapshot,
    steps: Seq<FreezeStep>,
    replies: Seq<FreezeReply>,
    i: int,
)
    requires
        is_freeze(scope, record, template, steps, replies),
        0 <= i < replies.len(),
    ensures
        steps[i] is LoadCommitted ==> (replies[i] matches FreezeReply::Committed(result)
            && match result {
            Err(error) => steps[i + 1] matches FreezeStep::Done { outcome: Err(fault), .. } && fault
                == Fault::Store(error),
            Ok(found) => steps[i + 1] matches FreezeStep::LoadPending { existing, .. } && (
            found matches Some(log) ==> existing == log) && (found is None ==> existing@.len()
                == 0),
        }),
        steps[i] matches FreezeStep::LoadPending { existing, .. } ==> (
        replies[i] matches FreezeReply::Pending(result) && match result {
            Err(error) => steps[i + 1] matches FreezeStep::Done { outcome: Err(fault), .. } && fault
                == Fault::Store(error),
            Ok(stored) => steps[i + 1] matches FreezeStep::Select { existing: e, queue, .. } && e
                == existing && queue@.len() == stored@.len() + appended_count(scope) && forall|k: int|
                0 <= k < stored@.len() ==> #[trigger] queue@[k] == stored@[k],
        }),
        steps[i] matches FreezeStep::Select { existing, queue, .. } ==> (
        replies[i] matches FreezeReply::Selected { indexes, now } && (indexes@.len() == 0 ==> (
        steps[i + 1] matches FreezeStep::Done { outcome, .. } && outcome == Ok::<
            Option<Vec<MessageRecord>>,
            Fault,
        >(None))) && (indexes@.len() > 0 ==> (steps[i + 1] matches FreezeStep::Commit {
            attempt,
            existing: e,
            selected_pending_ids,
            first_seq,
            last_seq,
            ..
        } && e == existing && first_seq == existing@.len() + 1 && last_seq == existing@.len()
            + indexes@.len() && selected_pending_ids@.len() == indexes@.len() && (forall|k: int|
            0 <= k < indexes@.len() ==> #[trigger] selected_pending_ids@[k]
                == queue@[indexes@[k] as int].pending_id) && attempt.record.updated_at == now) || (
        steps[i + 1] matches FreezeStep::Done {
            outcome: Err(Fault::PendingWithoutMessageId { pending_id }),
            ..
        } && exists|k: int|
            0 <= k < indexes@.len() && queue@[#[trigger] indexes@[k] as int].message.id is None
                && pending_id == queue@[indexes@[k] as int].pending_id))),
{
    assert(freeze_answers(scope, steps[i], replies[i]));
    assert(freeze_follows(scope, steps[i], replies[i], steps[i + 1]));
    if let FreezeStep::Select { queue, .. } = steps[i] {
        if let FreezeReply::Selected { indexes, .. } = replies[i] {
            if indexes@.len() > 0 && !(steps[i + 1] is Commit) {
                let at = choose|at: int| #[trigger] first_without_id(queue@, indexes@, at)
                    && steps[i + 1] == (FreezeStep::Done {
                    record: steps[i]->Select_record,
                    outcome: Err(
                        Fault::PendingWithoutMessageId {
                            pending_id: queue@[indexes@[at] as int].pending_id,
                        },
                    ),
                });
                assert(queue@[indexes@[at] as int].message.id is None);
            }
        }
    }
}

/// What a freeze does after its commit: a conflict reads the log again, up to eight
/// commits in all, and any other error ends it. What was frozen stands at the end of the
/// log and is published; events that could not be published are queued for repair, for
/// the very range and run; and the freeze gives back what was frozen.
pub proof fn lemma_freeze_publishes_what_it_froze(
    scope: FreezeScope,
    record: RunRecord,
    template: RunActivationSnapshot,
    steps: Seq<FreezeStep>,
    replies: Seq<FreezeReply>,
    i: int,
)
    requires
        is_freeze(scope, record, template, steps, replies),
        0 <= i < replies.len(),
    ensures
        steps[i] matches FreezeStep::Commit { attempts, attempt, existing, first_seq, last_seq, .. }
            ==> (replies[i] matches FreezeReply::Frozen(result) && match result {
            Ok(frozen) => steps[i + 1] matches FreezeStep::Publish {
                record: r,
                log,
                frozen: f,
                first_seq: from,
                last_seq: to,
            } && r == attempt.record && f == frozen && from == first_seq && to == last_seq
                && log@.len() == existing@.len() + frozen@.len(),
            Err(error) => if error is VersionConflict || error is PendingSelectionConflict {
                if attempts < 7 {
                    steps[i + 1] matches FreezeStep::LoadCommitted { attempts: n, .. } && n
                        == attempts + 1
                } else {
                    steps[i + 1] matches FreezeStep::Done { outcome: Err(fault), .. } && fault == (
                    Fault::FreezeRetriesExhausted {
                        boundary: scope.boundary,
                        thread_id: scope.thread_id,
                    })
                }
            } else {
                steps[i + 1] matches FreezeStep::Done { outcome: Err(fault), .. } && fault
                    == Fault::Store(error)
            },
        }),
        steps[i] matches FreezeStep::Publish { record: r, log, frozen, first_seq, last_seq } ==> (
        replies[i] matches FreezeReply::Published { failed } && (failed ==> (
        steps[i + 1] matches FreezeStep::QueueRepair { task, frozen: f, .. } && f == frozen
            && task.thread_id == scope.thread_id && task.run_id == scope.run_id && task.first_seq
            == first_seq && task.last_seq == last_seq)) && (!failed ==> steps[i + 1] == (
        FreezeStep::RefreshCache { record: r, log, frozen }))),
        steps[i] matches FreezeStep::QueueRepair { record: r, log, frozen, .. } ==> steps[i + 1]
            == (FreezeStep::RefreshCache { record: r, log, frozen }),
        steps[i] matches FreezeStep::RefreshCache { record: r, frozen, .. } ==> steps[i + 1] == (
        FreezeStep::Done { record: r, outcome: Ok(Some(frozen)) }),
{
    assert(freeze_answers(scope, steps[i], replies[i]));
    assert(freeze_follows(scope, steps[i], replies[i], steps[i + 1]));
    if let FreezeStep::Commit { existing, .. } = steps[i] {
        if let FreezeReply::Frozen(Ok(frozen)) = replies[i] {
            let log = steps[i + 1]->Publish_log;
            assert(messages_view(log@).len() == log@.len());
            assert(messages_view(existing@).len() == existing@.len());
            assert(frozen_messages(frozen@).len() == frozen@.len());
        }
    }
}

/// A freeze adds to what triggered the run: the triggers that the record names keep their
/// places, each message of the selection is among them by its id, and there are no others.
pub proof fn lemma_freeze_adds_to_the_triggers(
    scope: FreezeScope,
    step: FreezeStep,
    indexes: Vec<usize>,
    now: u64,
    next: FreezeStep,
    i: int,
    k: int,
)
    requires
        freeze_follows(scope, step, FreezeReply::Selected { indexes, now }, next),
        step is Select,
        next is Commit,
        0 <= k < indexes@.len(),
    ensures
        step matches FreezeStep::Select { record, queue, .. } && (next matches FreezeStep::Commit {
            attempt,
            ..
        } && (attempt.record.input matches Some(input) && ({
            let ids = input.trigger_message_ids@;
            let chosen = queue@[indexes@[k] as int].message.id;
            &&& record.input matches Some(earlier) ==> (0 <= i < earlier.trigger_message_ids@.len()
                ==> i < ids.len() && ids[i]@ == earlier.trigger_message_ids@[i]@)
            &&& chosen is Some
            &&& names(ids, chosen->0@)
            &&& 0 <= i < ids.len() ==> (record.input matches Some(earlier) && names(
                earlier.trigger_message_ids@,
                ids[i]@,
            )) || exists|j: int|
                0 <= j < indexes@.len() && (#[trigger] queue@[indexes@[j] as int]).message.id->0@
                    == ids[i]@
            &&& input.thread_id@ == scope.thread_id@
        }))),
{
    let record = step->Select_record;
    let queue = step->Select_queue@;
    let input = next->Commit_attempt.record.input->0;
    let ids = input.trigger_message_ids@;
    let prior = prior_triggers(record);
    let new = selected_message_ids(queue, indexes@);
    let all = merged_triggers(prior, new);
    lemma_merged_triggers(prior, new);
    assert(input@.trigger_message_ids == all);
    assert(texts(ids) == all);
    assert(ids.len() == all.len());
    if let Some(earlier) = record.input {
        if 0 <= i < earlier.trigger_message_ids@.len() {
            assert(prior[i] == earlier.trigger_message_ids@[i]@);
            assert(all.take(prior.len() as int)[i] == all[i]);
            assert(texts(ids)[i] == ids[i]@);
        }
    }
    if queue[indexes@[k] as int].message.id is None {
        lemma_first_without_id(queue, indexes@, k);
    }
    assert(new[k] == queue[indexes@[k] as int].message.id->0@);
    assert(new.contains(new[k]));
    assert(all.contains(new[k]));
    let at = choose|at: int| 0 <= at < all.len() && all[at] == new[k];
    assert(texts(ids)[at] == ids[at]@);
    if 0 <= i < ids.len() {
        assert(texts(ids)[i] == ids[i]@);
        assert(all.contains(all[i]));
        if prior.contains(all[i]) {
            let j = choose|j: int| 0 <= j < prior.len() && prior[j] == all[i];
            let earlier = record.input->0;
            assert(earlier.trigger_message_ids@[j]@ == prior[j]);
        } else {
            assert(new.contains(all[i]));
            let j = choose|j: int| 0 <= j < new.len() && new[j] == all[i];
            assert(new[j] == queue[indexes@[j] as int].message.id->0@);
        }
    }
}

/// Of entries without an id there is a first one.
proof fn lemma_first_without_id(queue: Seq<PendingMessageRecord>, indexes: Seq<usize>, k: int)
    requires
        0 <= k < indexes.len(),
        queue[indexes[k] as int].message.id is None,
    ensures
        exists|at: int| first_without_id(queue, indexes, at),
    decreases k,
{
    if forall|i: int| 0 <= i < k ==> queue[#[trigger] indexes[i] as int].message.id is Some {
        assert(first_without_id(queue, indexes, k));
    } else {
        let i = choose|i: int|
            0 <= i < k && !(queue[#[trigger] indexes[i] as int].message.id is Some);
        lemma_first_without_id(queue, indexes, i);
    }
}

} // verus!
