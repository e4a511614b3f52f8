//! What many preparations on one thread do to its log and its pending messages.
//!
//! A preparation hands its submission to the store in one transaction: it appends it
//! to the log, or it queues it as pending and freezes what is due at its boundary. A
//! freeze may take other messages than those of its own submission, and leave its own
//! to a later one. So a submission is in the log or still waits, and nothing else may
//! become of it.

use vstd::prelude::*;

use crate::delivery::PendingMessageRecord;
use crate::mailbox::concurrent_prepare::{submitted, Preparation};
use crate::mailbox::pending_freeze::{
    first_without_id, freeze_follows, merged_triggers, prior_triggers, selected_message_ids,
    selected_pending, FreezeReply, FreezeStep, PendingFreeze,
};
use crate::mailbox::prepare_run::{
    at_freeze, commits_record, lemma_preparation_matches_run_and_dispatch,
    lemma_prepared_runs_are_stored, prepare_answers, prepare_follows, was_stored, PrepareReply,
    PrepareStep,
};
use crate::message::{messages_view, texts, MessageView};
use crate::run::RunRecord;

verus! {

/// A message that waits in the queue of a thread, and the id that it waits under.
pub ghost struct Waiting {
    pub pending_id: Seq<char>,
    pub message: MessageView,
}

/// A thread as its store has it.
pub ghost struct ThreadState {
    pub log: Seq<MessageView>,
    pub waiting: Seq<Waiting>,
}

/// What a preparation hands to the store in one transaction: how many messages of the
/// log it had read, its submission, and the pending ids that it freezes. Without
/// those, the submission goes to the log.
pub ghost struct Transaction {
    pub read: nat,
    pub submission: Seq<MessageView>,
    pub frozen: Option<Seq<Seq<char>>>,
    pub record: RunRecord,
}

/// The messages that wait.
pub open spec fn messages_of(waiting: Seq<Waiting>) -> Seq<MessageView> {
    waiting.map_values(|w: Waiting| w.message)
}

/// A submission as it waits: each message under its own id.
pub open spec fn staged(submission: Seq<MessageView>) -> Seq<Waiting> {
    submission.map_values(
        |m: MessageView|
            Waiting {
                pending_id: match m.id {
                    Some(id) => id,
                    None => Seq::empty(),
                },
                message: m,
            },
    )
}

/// Whether a message waits under one of ids, or under none of them.
pub open spec fn is_under(ids: Seq<Seq<char>>, inside: bool) -> spec_fn(Waiting) -> bool {
    |w: Waiting| ids.contains(w.pending_id) == inside
}

/// The waiting messages under ids, or those under none of them.
pub open spec fn under(waiting: Seq<Waiting>, ids: Seq<Seq<char>>, inside: bool) -> Seq<Waiting> {
    waiting.filter(is_under(ids, inside))
}

/// Whether a store takes a transaction. It refuses one that had read another log. It
/// freezes what waits under the selected ids, in any order, and leaves the rest.
pub open spec fn takes(before: ThreadState, transaction: Transaction, after: ThreadState) -> bool {
    &&& before.log.len() == transaction.read
    &&& match transaction.frozen {
        None => {
            &&& after.log == before.log + transaction.submission
            &&& after.waiting == before.waiting
        },
        Some(ids) => {
            let queue = before.waiting + staged(transaction.submission);
            let frozen = messages_of(under(queue, ids, true));
            &&& after.waiting == under(queue, ids, false)
            &&& after.log.len() >= before.log.len()
            &&& after.log.take(before.log.len() as int) == before.log
            &&& after.log.skip(before.log.len() as int).to_multiset() == frozen.to_multiset()
        },
    }
}

/// All messages of a thread, in the log and waiting.
pub open spec fn held(state: ThreadState) -> vstd::multiset::Multiset<MessageView> {
    state.log.to_multiset().add(messages_of(state.waiting).to_multiset())
}

impl Preparation {
    /// What the stage `i` hands to the store, where it does.
    pub open spec fn transaction_at(self, i: int) -> Option<Transaction> {
        match self.stages[i].step {
            PrepareStep::Commit { messages, record, existing, .. } => Some(
                Transaction {
                    read: existing@.len(),
                    submission: messages_view(messages@),
                    frozen: None,
                    record,
                },
            ),
            PrepareStep::Freeze { freeze, .. } => match (freeze.step, freeze.scope.append) {
                (
                    FreezeStep::Commit { attempt, existing, selected_pending_ids, .. },
                    Some(append),
                ) => Some(
                    Transaction {
                        read: existing@.len(),
                        submission: messages_view(append.messages@),
                        frozen: Some(texts(selected_pending_ids@)),
                        record: attempt.record,
                    },
                ),
                _ => None,
            },
            _ => None,
        }
    }

    /// Whether the store took what the stage `i` handed to it.
    pub open spec fn taken_at(self, i: int) -> bool {
        &&& 0 <= i < self.replies.len()
        &&& self.transaction_at(i) is Some
        &&& match self.replies[i] {
            PrepareReply::Committed(outcome) => outcome is Committed,
            PrepareReply::Freezing(FreezeReply::Frozen(result)) => result is Ok,
            _ => false,
        }
    }

    /// The transaction of the preparation that the store took.
    pub open spec fn transaction(self) -> Transaction {
        self.transaction_at(choose|i: int| #[trigger] self.taken_at(i))->0
    }
}

/// Whether all of these are preparations that have reported their run as prepared.
pub open spec fn all_succeed(taken: Seq<Preparation>) -> bool {
    forall|k: int|
        0 <= k < taken.len() ==> (#[trigger] taken[k]).runs() && taken[k].succeeded()
}

/// Whether a store took the transactions of preparations in this order, where the thread
/// stood as given before each and after the last.
pub open spec fn are_taken_over(states: Seq<ThreadState>, taken: Seq<Preparation>) -> bool {
    &&& states.len() == taken.len() + 1
    &&& forall|k: int|
        0 <= k < taken.len() ==> takes(
            states[k],
            (#[trigger] taken[k]).transaction(),
            states[k + 1],
        )
}

/// Whether a stage has its transaction behind it.
pub open spec fn is_behind(step: PrepareStep) -> bool {
    match step {
        PrepareStep::Publish { .. } => true,
        PrepareStep::RefreshCache { .. } => true,
        PrepareStep::Done { .. } => true,
        PrepareStep::Freeze { freeze, .. } => freeze.step is Publish || freeze.step is QueueRepair
            || freeze.step is RefreshCache,
        _ => false,
    }
}

proof fn lemma_nothing_is_handed_over_after(preparation: Preparation, i: int, at: int)
    requires
        preparation.runs(),
        preparation.taken_at(i),
        i < at < preparation.stages.len(),
    ensures
        is_behind(preparation.stages[at].step),
    decreases at,
{
    if at > i + 1 {
        lemma_nothing_is_handed_over_after(preparation, i, at - 1);
    }
    assert(prepare_answers(preparation.stages[at - 1].step, preparation.replies[at - 1]));
    assert(prepare_follows(
        preparation.stages[at - 1],
        preparation.replies[at - 1],
        preparation.fresh[at - 1],
        preparation.stages[at],
    ));
}

/// A preparation that succeeds has exactly one transaction taken, by an append or by a
/// freeze, and what it hands over is what it was begun with.
pub proof fn lemma_submission_is_handed_over_once(preparation: Preparation)
    requires
        preparation.runs(),
        preparation.succeeded(),
    ensures
        exists|i: int| #[trigger] preparation.taken_at(i),
        forall|i: int, j: int|
            #![trigger preparation.taken_at(i), preparation.taken_at(j)]
            preparation.taken_at(i) && preparation.taken_at(j) ==> i == j,
        preparation.transaction().submission == messages_view(preparation.messages@),
{
    let stages = preparation.stages;
    let replies = preparation.replies;
    let end = stages.len() - 1;
    lemma_prepared_runs_are_stored(
        preparation.scope,
        preparation.request,
        preparation.messages,
        stages,
        replies,
        preparation.first,
        preparation.fresh,
        end,
    );
    let run_id = stages[end].step->outcome->Ok_0;
    assert(was_stored(stages, replies, end, run_id));
    let request = stages[end].request;
    let i = choose|i: int|
        0 <= i < end && #[trigger] commits_record(stages[i], replies[i], run_id, request);
    lemma_preparation_matches_run_and_dispatch(
        preparation.scope,
        preparation.request,
        preparation.messages,
        stages,
        replies,
        preparation.first,
        preparation.fresh,
        i,
    );
    assert(preparation.taken_at(i));
    assert forall|i: int, j: int|
        #![trigger preparation.taken_at(i), preparation.taken_at(j)]
        preparation.taken_at(i) && preparation.taken_at(j) implies i == j by {
        if i < j {
            lemma_nothing_is_handed_over_after(preparation, i, j);
        }
        if j < i {
            lemma_nothing_is_handed_over_after(preparation, j, i);
        }
    }
    let at = choose|i: int| #[trigger] preparation.taken_at(i);
    assert(at == i);
}

proof fn lemma_queue_is_parted(waiting: Seq<Waiting>, ids: Seq<Seq<char>>)
    ensures
        messages_of(waiting).to_multiset() == messages_of(
            under(waiting, ids, true),
        ).to_multiset().add(messages_of(under(waiting, ids, false)).to_multiset()),
    decreases waiting.len(),
{
    broadcast use vstd::seq_lib::group_to_multiset_ensures;

    reveal(Seq::filter);
    let inside = under(waiting, ids, true);
    let outside = under(waiting, ids, false);
    if waiting.len() == 0 {
        assert(messages_of(waiting) =~= Seq::empty());
        assert(messages_of(inside) =~= Seq::empty());
        assert(messages_of(outside) =~= Seq::empty());
        assert(messages_of(waiting).to_multiset() =~= messages_of(inside).to_multiset().add(
            messages_of(outside).to_multiset(),
        ));
    } else {
        let fewer = waiting.drop_last();
        let last = waiting.last();
        lemma_queue_is_parted(fewer, ids);
        let fewer_inside = under(fewer, ids, true);
        let fewer_outside = under(fewer, ids, false);
        assert(messages_of(waiting) =~= messages_of(fewer).push(last.message));
        if ids.contains(last.pending_id) {
            assert(messages_of(inside) =~= messages_of(fewer_inside).push(last.message));
            assert(outside == fewer_outside);
        } else {
            assert(messages_of(outside) =~= messages_of(fewer_outside).push(last.message));
            assert(inside == fewer_inside);
        }
        assert(messages_of(waiting).to_multiset() =~= messages_of(inside).to_multiset().add(
            messages_of(outside).to_multiset(),
        ));
    }
}

/// A transaction that a store takes adds its submission to what the thread holds, and
/// nothing else. What the log had stays in its place.
pub proof fn lemma_transaction_loses_nothing(
    before: ThreadState,
    transaction: Transaction,
    after: ThreadState,
)
    requires
        takes(before, transaction, after),
    ensures
        held(after) == held(before).add(transaction.submission.to_multiset()),
        after.log.len() >= before.log.len(),
        after.log.take(before.log.len() as int) == before.log,
{
    let n = before.log.len() as int;
    match transaction.frozen {
        None => {
            vstd::seq_lib::lemma_multiset_commutative(before.log, transaction.submission);
            assert(after.log.take(n) =~= before.log);
            assert(held(after) =~= held(before).add(transaction.submission.to_multiset()));
        },
        Some(ids) => {
            let added = staged(transaction.submission);
            let queue = before.waiting + added;
            lemma_queue_is_parted(queue, ids);
            assert(messages_of(queue) =~= messages_of(before.waiting) + messages_of(added));
            assert(messages_of(added) =~= transaction.submission);
            vstd::seq_lib::lemma_multiset_commutative(
                messages_of(before.waiting),
                transaction.submission,
            );
            assert(after.log =~= before.log + after.log.skip(n));
            vstd::seq_lib::lemma_multiset_commutative(before.log, after.log.skip(n));
            assert forall|m: MessageView| #[trigger]
                held(after).count(m) == held(before).add(
                    transaction.submission.to_multiset(),
                ).count(m) by {
                let waiting = messages_of(queue).to_multiset().count(m);
                assert(waiting == messages_of(before.waiting).to_multiset().count(m)
                    + transaction.submission.to_multiset().count(m));
                assert(waiting == after.log.skip(n).to_multiset().count(m) + messages_of(
                    after.waiting,
                ).to_multiset().count(m));
                assert(after.log.to_multiset().count(m) == before.log.to_multiset().count(m)
                    + after.log.skip(n).to_multiset().count(m));
            }
            assert(held(after) =~= held(before).add(transaction.submission.to_multiset()));
        },
    }
}

proof fn lemma_first_transactions_lose_nothing(
    states: Seq<ThreadState>,
    taken: Seq<Preparation>,
    j: int,
    n: int,
)
    requires
        all_succeed(taken),
        are_taken_over(states, taken),
        0 <= j <= n <= taken.len(),
    ensures
        j == 0 ==> held(states[n]) == held(states[0]).add(
            messages_view(submitted(taken.take(n))).to_multiset(),
        ),
        states[n].log.len() >= states[j].log.len(),
        states[n].log.take(states[j].log.len() as int) == states[j].log,
    decreases n,
{
    broadcast use vstd::seq_lib::group_to_multiset_ensures;

    if j == n {
        assert(states[n].log.take(states[j].log.len() as int) =~= states[j].log);
        if n == 0 {
            assert(messages_view(submitted(taken.take(0))) =~= Seq::empty());
            assert(held(states[0]) =~= held(states[0]).add(
                messages_view(submitted(taken.take(0))).to_multiset(),
            ));
        }
    } else {
        lemma_first_transactions_lose_nothing(states, taken, j, n - 1);
        let last = taken[n - 1];
        lemma_submission_is_handed_over_once(last);
        assert(takes(states[n - 1], last.transaction(), states[n - 1 + 1]));
        lemma_transaction_loses_nothing(states[n - 1], last.transaction(), states[n]);
        let m = states[j].log.len() as int;
        let earlier_log = states[n].log.take(states[n - 1].log.len() as int);
        assert(states[n].log.take(m) =~= earlier_log.take(m));
        assert(taken.take(n).drop_last() =~= taken.take(n - 1));
        assert(taken.take(n).last() == last);
        let earlier = submitted(taken.take(n - 1));
        assert(messages_view(submitted(taken.take(n))) =~= messages_view(earlier) + messages_view(
            last.messages@,
        ));
        vstd::seq_lib::lemma_multiset_commutative(
            messages_view(earlier),
            messages_view(last.messages@),
        );
        if j == 0 {
            assert(held(states[n]) =~= held(states[0]).add(
                messages_view(submitted(taken.take(n))).to_multiset(),
            ));
        }
    }
}

/// No submission is lost where messages are staged as pending either, however many
/// preparations run on a thread at the same time: once they have all succeeded, the
/// log and the queue together hold what they held before and every submission, once
/// each and whole, and nothing else. No message of the log is ever moved or removed.
pub proof fn lemma_no_staged_submission_is_lost(states: Seq<ThreadState>, taken: Seq<Preparation>)
    requires
        all_succeed(taken),
        are_taken_over(states, taken),
    ensures
        held(states.last()) == held(states[0]).add(messages_view(submitted(taken)).to_multiset()),
        forall|j: int|
            0 <= j < states.len() ==> (#[trigger] states[j]).log.len() <= states.last().log.len()
                && states.last().log.take(states[j].log.len() as int) == states[j].log,
{
    let n = taken.len() as int;
    assert(taken.take(n) =~= taken);
    lemma_first_transactions_lose_nothing(states, taken, 0, n);
    assert forall|j: int| 0 <= j < states.len() implies (#[trigger] states[j]).log.len()
        <= states.last().log.len() && states.last().log.take(states[j].log.len() as int)
        == states[j].log by {
        lemma_first_transactions_lose_nothing(states, taken, j, n);
    }
}

/// Once no message waits any more, the log has gained every submission, once each and
/// whole, and nothing else, where none waited at the start.
pub proof fn lemma_drained_log_has_every_submission(
    states: Seq<ThreadState>,
    taken: Seq<Preparation>,
)
    requires
        all_succeed(taken),
        are_taken_over(states, taken),
        states[0].waiting.len() == 0,
        states.last().waiting.len() == 0,
    ensures
        states.last().log.skip(states[0].log.len() as int).to_multiset() == messages_view(
            submitted(taken),
        ).to_multiset(),
{
    broadcast use vstd::seq_lib::group_to_multiset_ensures;

    lemma_no_staged_submission_is_lost(states, taken);
    let first = states[0];
    let last = states.last();
    let gained = last.log.skip(first.log.len() as int);
    assert(messages_of(first.waiting) =~= Seq::empty());
    assert(messages_of(last.waiting) =~= Seq::empty());
    assert(last.log =~= first.log + gained);
    vstd::seq_lib::lemma_multiset_commutative(first.log, gained);
    let submissions = messages_view(submitted(taken)).to_multiset();
    assert forall|m: MessageView| #[trigger]
        gained.to_multiset().count(m) == submissions.count(m) by {
        assert(held(last).count(m) == first.log.to_multiset().count(m) + gained.to_multiset().count(
            m,
        ));
        assert(held(first).count(m) == first.log.to_multiset().count(m));
        assert(held(last).count(m) == held(first).count(m) + submissions.count(m));
    }
    assert(gained.to_multiset() =~= submissions);
}

/// Whether the stage `i` froze these entries of a queue, and recorded their messages as
/// triggers behind those that the record had.
pub open spec fn freezes_selection(
    preparation: Preparation,
    i: int,
    queue: Seq<PendingMessageRecord>,
    indexes: Seq<usize>,
    record: RunRecord,
) -> bool {
    &&& preparation.transaction_at(i) matches Some(transaction)
    &&& transaction.frozen == Some(texts(selected_pending(queue, indexes)))
    &&& forall|k: int|
        0 <= k < indexes.len() ==> #[trigger] indexes[k] < queue.len()
            && queue[indexes[k] as int].message.id is Some
    &&& transaction.record.input matches Some(input) && input@.trigger_message_ids
        == merged_triggers(prior_triggers(record), selected_message_ids(queue, indexes))
}

proof fn lemma_first_without_id(queue: Seq<PendingMessageRecord>, indexes: Seq<usize>, n: int)
    requires
        0 <= n < indexes.len(),
        queue[indexes[n] as int].message.id is None,
    ensures
        exists|at: int| #[trigger] first_without_id(queue, indexes, at),
    decreases n,
{
    if exists|k: int| 0 <= k < n && queue[#[trigger] indexes[k] as int].message.id is None {
        let k = choose|k: int|
            0 <= k < n && queue[#[trigger] indexes[k] as int].message.id is None;
        lemma_first_without_id(queue, indexes, k);
    } else {
        assert(first_without_id(queue, indexes, n));
    }
}

/// What a freeze hands to the store comes right from a selection: the pending ids are
/// those of the selected entries, and the triggers that the record gains are the ids of
/// their messages.
pub proof fn lemma_frozen_entries_become_triggers(preparation: Preparation, i: int)
    requires
        preparation.runs(),
        0 <= i < preparation.stages.len(),
        preparation.transaction_at(i) matches Some(transaction) && transaction.frozen is Some,
    ensures
        exists|queue: Seq<PendingMessageRecord>, indexes: Seq<usize>, record: RunRecord|
            freezes_selection(preparation, i, queue, indexes, record),
{
    let before = preparation.stages[i - 1];
    let reply = preparation.replies[i - 1];
    let after = preparation.stages[i];
    assert(i > 0);
    assert(prepare_answers(before.step, reply));
    assert(prepare_follows(before, reply, preparation.fresh[i - 1], after));
    if let PrepareStep::Freeze { ids, boundary, freeze } = before.step {
        let inner = reply->Freezing_0;
        let next = choose|next: FreezeStep| #[trigger]
            freeze_follows(freeze.scope, freeze.step, inner, next) && after.step == at_freeze(
                before.scope,
                ids,
                boundary,
                PendingFreeze { step: next, ..freeze },
            );
        assert(next is Commit);
        let indexes = inner->indexes@;
        let queue = freeze.step->Select_queue@;
        let record = freeze.step->Select_record;
        assert forall|k: int| 0 <= k < indexes.len() implies #[trigger] indexes[k] < queue.len()
            && queue[indexes[k] as int].message.id is Some by {
            if queue[indexes[k] as int].message.id is None {
                lemma_first_without_id(queue, indexes, k);
            }
        }
        assert(freezes_selection(preparation, i, queue, indexes, record));
    }
}

/// Whether a log holds a message with an id.
pub open spec fn log_has(log: Seq<MessageView>, id: Seq<char>) -> bool {
    exists|i: int| 0 <= i < log.len() && (#[trigger] log[i]).id == Some(id)
}

/// Whether every entry that was selected still waits under its pending id, with the id
/// that its message had. A store takes no freeze of an entry that is gone.
pub open spec fn still_waits(
    waiting: Seq<Waiting>,
    queue: Seq<PendingMessageRecord>,
    indexes: Seq<usize>,
) -> bool {
    forall|k: int|
        0 <= k < indexes.len() ==> is_waiting(
            waiting,
            queue[#[trigger] indexes[k] as int].pending_id@,
            queue[indexes[k] as int].message.id->0@,
        )
}

/// Whether a message with an id waits under a pending id.
pub open spec fn is_waiting(waiting: Seq<Waiting>, pending_id: Seq<char>, id: Seq<char>) -> bool {
    exists|i: int|
        0 <= i < waiting.len() && (#[trigger] waiting[i]).pending_id == pending_id
            && waiting[i].message.id == Some(id)
}

/// Every message that a freeze records as a trigger of its run is found in the log, from
/// that transaction on.
pub proof fn lemma_frozen_triggers_are_in_the_log(
    states: Seq<ThreadState>,
    taken: Seq<Preparation>,
    at: int,
    i: int,
    queue: Seq<PendingMessageRecord>,
    indexes: Seq<usize>,
    record: RunRecord,
    k: int,
)
    requires
        all_succeed(taken),
        are_taken_over(states, taken),
        0 <= at < taken.len(),
        taken[at].taken_at(i),
        freezes_selection(taken[at], i, queue, indexes, record),
        still_waits(
            states[at].waiting + staged(taken[at].transaction().submission),
            queue,
            indexes,
        ),
        0 <= k < indexes.len(),
    ensures
        log_has(states[at + 1].log, selected_message_ids(queue, indexes)[k]),
        log_has(states.last().log, selected_message_ids(queue, indexes)[k]),
{
    broadcast use vstd::seq_lib::group_to_multiset_ensures;

    let preparation = taken[at];
    lemma_submission_is_handed_over_once(preparation);
    let transaction = preparation.transaction();
    assert(preparation.transaction_at(i) == Some(transaction));
    let before = states[at];
    let after = states[at + 1];
    assert(takes(before, transaction, after));
    let ids = texts(selected_pending(queue, indexes));
    let waiting = before.waiting + staged(transaction.submission);
    let pending_id = queue[indexes[k] as int].pending_id@;
    let id = selected_message_ids(queue, indexes)[k];
    assert(ids[k] == pending_id);
    assert(is_waiting(waiting, pending_id, id));
    let j = choose|j: int|
        0 <= j < waiting.len() && (#[trigger] waiting[j]).pending_id == pending_id
            && waiting[j].message.id == Some(id);
    let frozen = under(waiting, ids, true);
    waiting.lemma_filter_contains(is_under(ids, true), j);
    let f = choose|f: int| 0 <= f < frozen.len() && frozen[f] == waiting[j];
    assert(messages_of(frozen)[f].id == Some(id));
    let n = before.log.len() as int;
    let gained = after.log.skip(n);
    let message = waiting[j].message;
    assert(messages_of(frozen)[f] == message);
    assert(messages_of(frozen).to_multiset().count(message) > 0);
    assert(gained.to_multiset().count(message) > 0);
    assert(gained.contains(message));
    let g = choose|g: int| 0 <= g < gained.len() && gained[g] == message;
    assert(after.log[n + g].id == Some(id));
    lemma_no_staged_submission_is_lost(states, taken);
    assert(states.last().log.take(after.log.len() as int)[n + g] == after.log[n + g]);
    assert(states.last().log[n + g].id == Some(id));
}

} // verus!
