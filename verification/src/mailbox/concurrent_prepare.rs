//! What many preparations on one thread do to its log.
//!
//! Preparations may run at the same time, in one process or in several. What keeps
//! them from losing each other's messages is the guard of the commit: the store takes
//! an append only where the log still has as many messages as were read. The order in
//! which the store takes the commits is then all that matters.

use vstd::prelude::*;

use crate::activation::RunActivation;
use crate::mailbox::checkpoint::CommitOutcome;
use crate::mailbox::helpers::ids_of;
use crate::mailbox::prepare_run::{
    commits_record, is_preparation, lemma_appends_extend_the_log_they_read,
    lemma_prepared_runs_are_stored, prepare_answers, prepare_follows, was_stored, PrepareReply,
    PrepareScope, PrepareStep, RunIds, RunPreparation,
};
use crate::message::Message;
use crate::run::RunRecord;

verus! {

/// A preparation: what it was begun with, how it stood before each reply, the
/// replies, and the ids that were fresh at the start and at each reply.
pub ghost struct Preparation {
    pub scope: PrepareScope,
    pub request: RunActivation,
    pub messages: Vec<Message>,
    pub stages: Seq<RunPreparation>,
    pub replies: Seq<PrepareReply>,
    pub first: RunIds,
    pub fresh: Seq<RunIds>,
}

impl Preparation {
    /// Whether the stages are those of a preparation.
    pub open spec fn runs(self) -> bool {
        is_preparation(
            self.scope,
            self.request,
            self.messages,
            self.stages,
            self.replies,
            self.first,
            self.fresh,
        )
    }

    /// Whether a preparation appends its messages to the log, rather than have them
    /// frozen from the pending ones.
    pub open spec fn appends(self) -> bool {
        forall|i: int| 0 <= i < self.stages.len() ==> !((#[trigger] self.stages[i]).step is Freeze)
    }

    /// Whether a preparation has reported its run as prepared.
    pub open spec fn succeeded(self) -> bool {
        self.stages.last().step matches PrepareStep::Done { outcome: Ok(_) }
    }

    /// Whether the store took the commit of the stage `i`.
    pub open spec fn commits_at(self, i: int) -> bool {
        &&& 0 <= i < self.replies.len()
        &&& self.stages[i].step is Commit
        &&& self.replies[i] == PrepareReply::Committed(CommitOutcome::Committed)
    }

    /// The stage whose commit the store took.
    pub open spec fn commit(self) -> PrepareStep {
        self.stages[choose|i: int| #[trigger] self.commits_at(i)].step
    }

    /// The log that the preparation had read.
    pub open spec fn read(self) -> Seq<Message> {
        match self.commit() {
            PrepareStep::Commit { existing, .. } => existing@,
            _ => seq![],
        }
    }

    /// What the preparation had the store append.
    pub open spec fn appended(self) -> Seq<Message> {
        match self.commit() {
            PrepareStep::Commit { messages, .. } => messages@,
            _ => seq![],
        }
    }

    /// The run record that the store took with it.
    pub open spec fn record(self) -> Option<RunRecord> {
        match self.commit() {
            PrepareStep::Commit { record, .. } => Some(record),
            _ => None,
        }
    }
}

/// The log after the commits of preparations were taken, one after another.
pub open spec fn log_after(log: Seq<Message>, taken: Seq<Preparation>) -> Seq<Message>
    decreases taken.len(),
{
    if taken.len() == 0 {
        log
    } else {
        log_after(log, taken.drop_last()) + taken.last().appended()
    }
}

/// The messages that preparations were begun with, one preparation after another.
pub open spec fn submitted(taken: Seq<Preparation>) -> Seq<Message>
    decreases taken.len(),
{
    if taken.len() == 0 {
        seq![]
    } else {
        submitted(taken.drop_last()) + taken.last().messages@
    }
}

/// Whether a store took the commits of preparations in this order: each where the log
/// had as many messages as the preparation had read, and each preparation had read
/// the log as it stood at some time before.
pub open spec fn are_taken(log: Seq<Message>, taken: Seq<Preparation>) -> bool {
    forall|k: int|
        0 <= k < taken.len() ==> (#[trigger] taken[k]).read().len() == log_after(
            log,
            taken.take(k),
        ).len() && stood_before(log, taken, k, taken[k].read())
}

/// Whether the log was read before the commit `k` was taken.
pub open spec fn stood_before(
    log: Seq<Message>,
    taken: Seq<Preparation>,
    k: int,
    read: Seq<Message>,
) -> bool {
    exists|j: int| 0 <= j <= k && #[trigger] log_after(log, taken.take(j)) == read
}

/// Whether a log holds a message with an id.
pub open spec fn is_found(log: Seq<Message>, id: Seq<char>) -> bool {
    exists|i: int| 0 <= i < log.len() && ((#[trigger] log[i]).id matches Some(own) && own@ == id)
}

/// Where there is no pending store, every preparation appends.
pub proof fn lemma_without_pending_store_messages_are_appended(preparation: Preparation)
    requires
        preparation.runs(),
        !preparation.scope.has_pending_store,
    ensures
        preparation.appends(),
{
    assert forall|i: int| 0 <= i < preparation.stages.len() implies !((
    #[trigger] preparation.stages[i]).step is Freeze) by {
        lemma_does_not_freeze(preparation, i);
    }
}

proof fn lemma_does_not_freeze(preparation: Preparation, at: int)
    requires
        preparation.runs(),
        !preparation.scope.has_pending_store,
        0 <= at < preparation.stages.len(),
    ensures
        preparation.stages[at].scope == preparation.scope,
        !(preparation.stages[at].step is Freeze),
    decreases at,
{
    if at > 0 {
        lemma_does_not_freeze(preparation, at - 1);
        assert(prepare_answers(preparation.stages[at - 1].step, preparation.replies[at - 1]));
        assert(prepare_follows(
            preparation.stages[at - 1],
            preparation.replies[at - 1],
            preparation.fresh[at - 1],
            preparation.stages[at],
        ));
    }
}

proof fn lemma_nothing_is_committed_after(preparation: Preparation, i: int, at: int)
    requires
        preparation.runs(),
        preparation.commits_at(i),
        i < at < preparation.stages.len(),
    ensures
        preparation.stages[at].step is Publish || preparation.stages[at].step is RefreshCache
            || preparation.stages[at].step is Done,
    decreases at,
{
    if at > i + 1 {
        lemma_nothing_is_committed_after(preparation, i, at - 1);
    }
    assert(prepare_answers(preparation.stages[at - 1].step, preparation.replies[at - 1]));
    assert(prepare_follows(
        preparation.stages[at - 1],
        preparation.replies[at - 1],
        preparation.fresh[at - 1],
        preparation.stages[at],
    ));
}

/// A preparation that succeeds by appending has exactly one commit taken, however
/// often it met a conflict.
pub proof fn lemma_preparation_commits_once(preparation: Preparation)
    requires
        preparation.runs(),
        preparation.appends(),
        preparation.succeeded(),
    ensures
        exists|i: int| #[trigger] preparation.commits_at(i),
        forall|i: int, j: int|
            #![trigger preparation.commits_at(i), preparation.commits_at(j)]
            preparation.commits_at(i) && preparation.commits_at(j) ==> i == j,
{
    let stages = preparation.stages;
    let replies = preparation.replies;
    let end = stages.len() - 1;
    lemma_prepared_runs_are_stored(
        preparation.scope,
        preparation.request,
        preparation.messages,
        stages,
        replies,
        preparation.first,
        preparation.fresh,
        end,
    );
    let run_id = stages[end].step->outcome->Ok_0;
    assert(was_stored(stages, replies, end, run_id));
    let i = choose|i: int|
        0 <= i < end && #[trigger] commits_record(stages[i], replies[i], run_id, stages[end].request);
    assert(preparation.commits_at(i));
    assert forall|i: int, j: int|
        #![trigger preparation.commits_at(i), preparation.commits_at(j)]
        preparation.commits_at(i) && preparation.commits_at(j) implies i == j by {
        if i < j {
            lemma_nothing_is_committed_after(preparation, i, j);
        }
        if j < i {
            lemma_nothing_is_committed_after(preparation, j, i);
        }
    }
}

/// What a preparation has the store append is what it was begun with, and the triggers
/// of the run record are the ids of just these messages.
proof fn lemma_commit_is_the_submission(preparation: Preparation)
    requires
        preparation.runs(),
        preparation.appends(),
        preparation.succeeded(),
    ensures
        preparation.appended() == preparation.messages@,
        preparation.record() matches Some(record) && names_messages(
            record,
            preparation.messages@,
        ),
{
    lemma_preparation_commits_once(preparation);
    let at = choose|i: int| #[trigger] preparation.commits_at(i);
    lemma_appends_extend_the_log_they_read(
        preparation.scope,
        preparation.request,
        preparation.messages,
        preparation.stages,
        preparation.replies,
        preparation.first,
        preparation.fresh,
        at,
    );
    assert(prepare_follows(
        preparation.stages[at - 1],
        preparation.replies[at - 1],
        preparation.fresh[at - 1],
        preparation.stages[at],
    ));
}

/// Whether the triggers of a run record, and of the snapshot that it is replayed from,
/// are the ids of these messages.
pub open spec fn names_messages(record: RunRecord, messages: Seq<Message>) -> bool {
    &&& record.input matches Some(input) && input@.trigger_message_ids == ids_of(messages)
    &&& record.activation matches Some(snapshot) && snapshot.input@.trigger_message_ids == ids_of(
        messages,
    )
}

proof fn lemma_ids_are_found(messages: Seq<Message>, id: Seq<char>)
    requires
        ids_of(messages).contains(id),
    ensures
        is_found(messages, id),
    decreases messages.len(),
{
    let ids = ids_of(messages);
    let at = choose|at: int| 0 <= at < ids.len() && ids[at] == id;
    let fewer = messages.drop_last();
    if messages.last().id is Some && at == ids.len() - 1 {
        assert(messages[messages.len() - 1].id->0@ == id);
    } else {
        assert(ids_of(fewer)[at] == id);
        lemma_ids_are_found(fewer, id);
        let i = choose|i: int|
            0 <= i < fewer.len() && ((#[trigger] fewer[i]).id matches Some(own) && own@ == id);
        assert(messages[i] == fewer[i]);
    }
}

proof fn lemma_log_grows(log: Seq<Message>, taken: Seq<Preparation>, j: int, k: int)
    requires
        0 <= j <= k <= taken.len(),
    ensures
        log_after(log, taken.take(j)).len() <= log_after(log, taken.take(k)).len(),
        forall|i: int|
            0 <= i < log_after(log, taken.take(j)).len() ==> #[trigger] log_after(
                log,
                taken.take(k),
            )[i] == log_after(log, taken.take(j))[i],
    decreases k - j,
{
    if j < k {
        lemma_log_grows(log, taken, j, k - 1);
        assert(taken.take(k).drop_last() =~= taken.take(k - 1));
        let shorter = log_after(log, taken.take(k - 1));
        let longer = log_after(log, taken.take(k));
        assert(longer == shorter + taken.take(k).last().appended());
        assert forall|i: int| 0 <= i < log_after(log, taken.take(j)).len() implies #[trigger] longer[i]
            == log_after(log, taken.take(j))[i] by {
            assert(longer[i] == shorter[i]);
        }
    }
}

/// The log after the first `n` commits is the old log and behind it the first `n`
/// submissions.
proof fn lemma_log_is_the_submissions(log: Seq<Message>, taken: Seq<Preparation>, n: int)
    requires
        0 <= n <= taken.len(),
        forall|k: int|
            0 <= k < taken.len() ==> (#[trigger] taken[k]).runs() && taken[k].appends()
                && taken[k].succeeded(),
    ensures
        log_after(log, taken.take(n)) == log + submitted(taken.take(n)),
    decreases n,
{
    if n > 0 {
        lemma_log_is_the_submissions(log, taken, n - 1);
        assert(taken.take(n).drop_last() =~= taken.take(n - 1));
        assert(taken.take(n).last() == taken[n - 1]);
        lemma_commit_is_the_submission(taken[n - 1]);
        assert(log_after(log, taken.take(n)) =~= log + submitted(taken.take(n)));
    } else {
        assert(log_after(log, taken.take(0)) =~= log + submitted(taken.take(0)));
    }
}

/// No submission is lost, however many preparations run on a thread at the same time,
/// in one process or in several: once they have all succeeded, the log is the old one
/// and behind it every submission, once each and whole, in the order in which the
/// store took their commits. Each preparation had read the very log that its messages
/// were put behind, and every message that a run names as its trigger is found in the
/// log.
pub proof fn lemma_no_submission_is_lost(log: Seq<Message>, taken: Seq<Preparation>)
    requires
        forall|k: int|
            0 <= k < taken.len() ==> (#[trigger] taken[k]).runs() && taken[k].appends()
                && taken[k].succeeded(),
        are_taken(log, taken),
    ensures
        log_after(log, taken) == log + submitted(taken),
        forall|k: int|
            0 <= k < taken.len() ==> (#[trigger] taken[k]).read() == log + submitted(
                taken.take(k),
            ),
        forall|k: int|
            0 <= k < taken.len() ==> ((#[trigger] taken[k]).record() matches Some(record)
                && names_messages(record, taken[k].messages@)),
        forall|k: int, id: Seq<char>|
            0 <= k < taken.len() && #[trigger] ids_of(taken[k].messages@).contains(id) ==> is_found(
                log_after(log, taken),
                id,
            ),
{
    let n = taken.len() as int;
    assert(taken.take(n) =~= taken);
    lemma_log_is_the_submissions(log, taken, n);
    assert forall|k: int| 0 <= k < taken.len() implies (#[trigger] taken[k]).read() == log
        + submitted(taken.take(k)) by {
        lemma_log_is_the_submissions(log, taken, k);
        let read = taken[k].read();
        assert(stood_before(log, taken, k, read));
        let j = choose|j: int| 0 <= j <= k && #[trigger] log_after(log, taken.take(j)) == read;
        lemma_log_grows(log, taken, j, k);
        assert(read =~= log_after(log, taken.take(k)));
    }
    assert forall|k: int| 0 <= k < taken.len() implies ((
    #[trigger] taken[k]).record() matches Some(record) && names_messages(
        record,
        taken[k].messages@,
    )) by {
        lemma_commit_is_the_submission(taken[k]);
    }
    assert forall|k: int, id: Seq<char>|
        0 <= k < taken.len() && #[trigger] ids_of(taken[k].messages@).contains(id) implies is_found(
        log_after(log, taken),
        id,
    ) by {
        let own = taken[k].messages@;
        lemma_ids_are_found(own, id);
        let i = choose|i: int|
            0 <= i < own.len() && ((#[trigger] own[i]).id matches Some(x) && x@ == id);
        assert(taken.take(k + 1).drop_last() =~= taken.take(k));
        assert(taken.take(k + 1).last() == taken[k]);
        lemma_commit_is_the_submission(taken[k]);
        let before = log_after(log, taken.take(k));
        let with = log_after(log, taken.take(k + 1));
        assert(with == before + own);
        assert(with[before.len() + i] == own[i]);
        lemma_log_grows(log, taken, k + 1, n);
        assert(log_after(log, taken)[before.len() + i] == own[i]);
    }
}

} // verus!
