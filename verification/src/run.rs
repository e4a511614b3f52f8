//! Runs of a thread: their status, their input, and the durable run record.

use vstd::prelude::*;

use crate::activation::{RunIntent, RunOptions, RunTrace, SeededDecision};
use crate::message::texts;

verus! {

/// The status of a run.
#[derive(Clone, Copy, Debug, PartialEq, Eq, Structural)]
pub enum RunStatus {
    Created,
    Running,
    Waiting,
    Done,
}

/// Why a run ended. Reasons that the mailbox does not tell apart carry the
/// status that they leave the run in.
#[derive(Debug, PartialEq)]
pub enum TerminationReason {
    NaturalEnd,
    Cancelled,
    Error(String),
    Other { name: String, status: RunStatus },
}

impl Clone for TerminationReason {
    fn clone(&self) -> (r: Self)
        ensures
            r == *self,
    {
        match self {
            TerminationReason::NaturalEnd => TerminationReason::NaturalEnd,
            TerminationReason::Cancelled => TerminationReason::Cancelled,
            TerminationReason::Error(message) => TerminationReason::Error(message.clone()),
            TerminationReason::Other { name, status } => TerminationReason::Other {
                name: name.clone(),
                status: *status,
            },
        }
    }
}

impl TerminationReason {
    /// The status that a run is left in when it ends for this reason.
    pub open spec fn run_status(self) -> RunStatus {
        match self {
            TerminationReason::Other { status, .. } => status,
            _ => RunStatus::Done,
        }
    }

    /// The status that a run is left in when it ends for this reason.
    pub fn to_run_status(&self) -> (r: RunStatus)
        ensures
            r == self.run_status(),
    {
        match self {
            TerminationReason::Other { status, .. } => *status,
            _ => RunStatus::Done,
        }
    }
}

/// What a waiting run waits for.
#[derive(Clone, Copy, Debug, PartialEq, Eq, Structural)]
pub enum WaitingReason {
    UserInput,
    BackgroundTasks,
    Other,
}

/// The state of a waiting run. `resumable` tells whether new input may continue
/// it; what else is stored of the wait is in `details`.
#[derive(Clone, Debug, PartialEq)]
pub struct RunWaitingState {
    pub reason: WaitingReason,
    pub resumable: bool,
    pub details: Option<serde_json::Value>,
}

/// A range of message sequence numbers, both ends included. Numbers start at one.
#[derive(Clone, Copy, Debug, PartialEq, Eq, Structural)]
pub struct MessageSeqRange {
    pub from_seq: u64,
    pub to_seq: u64,
}

impl MessageSeqRange {
    /// The range from `from_seq` to `to_seq`, where that is a range.
    pub open spec fn of(from_seq: u64, to_seq: u64) -> Option<MessageSeqRange> {
        if 1 <= from_seq <= to_seq {
            Some(MessageSeqRange { from_seq, to_seq })
        } else {
            None
        }
    }

    /// The range from `from_seq` to `to_seq`, where that is a range.
    pub fn new(from_seq: u64, to_seq: u64) -> (r: Option<MessageSeqRange>)
        ensures
            r == MessageSeqRange::of(from_seq, to_seq),
    {
        if 1 <= from_seq && from_seq <= to_seq {
            Some(MessageSeqRange { from_seq, to_seq })
        } else {
            None
        }
    }
}

/// The input of a run as its activation snapshot records it, and as the run
/// record repeats it.
#[derive(Clone, Debug, PartialEq)]
pub struct RunInputSnapshot {
    pub thread_id: String,
    pub range: Option<MessageSeqRange>,
    pub trigger_message_ids: Vec<String>,
    pub selected_message_ids: Vec<String>,
    pub context_policy: Option<serde_json::Value>,
    pub compacted_snapshot_id: Option<String>,
}

/// The projection of a run's input that the run record holds.
#[derive(Clone, Debug, PartialEq)]
pub struct RunMessageInput {
    pub thread_id: String,
    pub range: Option<MessageSeqRange>,
    pub trigger_message_ids: Vec<String>,
    pub selected_message_ids: Vec<String>,
    pub context_policy: Option<serde_json::Value>,
    pub compacted_snapshot_id: Option<String>,
}

/// What a run's input holds.
#[verifier::ext_equal]
pub ghost struct RunInputView {
    pub thread_id: Seq<char>,
    pub range: Option<MessageSeqRange>,
    pub trigger_message_ids: Seq<Seq<char>>,
    pub selected_message_ids: Seq<Seq<char>>,
    pub context_policy: Option<serde_json::Value>,
    pub compacted_snapshot_id: Option<String>,
}

impl View for RunInputSnapshot {
    type V = RunInputView;

    open spec fn view(&self) -> RunInputView {
        RunInputView {
            thread_id: self.thread_id@,
            range: self.range,
            trigger_message_ids: texts(self.trigger_message_ids@),
            selected_message_ids: texts(self.selected_message_ids@),
            context_policy: self.context_policy,
            compacted_snapshot_id: self.compacted_snapshot_id,
        }
    }
}

impl View for RunMessageInput {
    type V = RunInputView;

    open spec fn view(&self) -> RunInputView {
        RunInputView {
            thread_id: self.thread_id@,
            range: self.range,
            trigger_message_ids: texts(self.trigger_message_ids@),
            selected_message_ids: texts(self.selected_message_ids@),
            context_policy: self.context_policy,
            compacted_snapshot_id: self.compacted_snapshot_id,
        }
    }
}

/// The input of a run that spans the committed log of `last_seq` messages and
/// was triggered by the given ones.
pub open spec fn whole_log_input(
    thread_id: Seq<char>,
    last_seq: u64,
    trigger_message_ids: Seq<Seq<char>>,
) -> RunInputView {
    RunInputView {
        thread_id,
        range: MessageSeqRange::of(1, last_seq),
        trigger_message_ids,
        selected_message_ids: seq![],
        context_policy: None,
        compacted_snapshot_id: None,
    }
}

/// What a run was activated with, as the run record keeps it for replay.
#[derive(Clone, Debug, PartialEq)]
pub struct RunActivationSnapshot {
    pub intent: RunIntent,
    pub options: RunOptions,
    pub trace: RunTrace,
    pub input: RunInputSnapshot,
    pub seeded_decisions: Vec<SeededDecision>,
    pub resolution_id: Option<String>,
}

/// The request of a run as earlier records keep it.
#[derive(Clone, Debug, PartialEq)]
pub struct RunRequestSnapshot {
    pub input_message_ids: Vec<String>,
    pub input_message_count: u64,
    pub request_extras: Option<serde_json::Value>,
}

/// The payload of a failed run: the message alone, or what the runtime stored.
#[derive(Clone, Debug, PartialEq)]
pub enum ErrorPayload {
    Message { message: String },
    Stored { value: serde_json::Value },
}

/// The durable record of a run. Times are in seconds.
#[derive(Clone, Debug, PartialEq)]
pub struct RunRecord {
    pub run_id: String,
    pub thread_id: String,
    pub agent_id: String,
    pub parent_run_id: Option<String>,
    pub resolution_id: Option<String>,
    pub activation: Option<RunActivationSnapshot>,
    pub request: Option<RunRequestSnapshot>,
    pub input: Option<RunMessageInput>,
    pub output: Option<serde_json::Value>,
    pub status: RunStatus,
    pub termination_reason: Option<TerminationReason>,
    pub final_output: Option<String>,
    pub error_payload: Option<ErrorPayload>,
    pub dispatch_id: Option<String>,
    pub session_id: Option<String>,
    pub transport_request_id: Option<String>,
    pub waiting: Option<RunWaitingState>,
    pub outcome: Option<serde_json::Value>,
    pub created_at: u64,
    pub started_at: Option<u64>,
    pub finished_at: Option<u64>,
    pub updated_at: u64,
    pub steps: u64,
    pub input_tokens: u64,
    pub output_tokens: u64,
    pub state: Option<serde_json::Value>,
}

impl RunRecord {
    /// Whether new input may continue this run.
    pub open spec fn resumable(self) -> bool {
        &&& self.status == RunStatus::Waiting
        &&& self.waiting matches Some(w) && w.resumable
    }

    /// Whether new input may continue this run.
    pub fn is_resumable_waiting(&self) -> (r: bool)
        ensures
            r == self.resumable(),
    {
        match &self.waiting {
            Some(w) => self.status == RunStatus::Waiting && w.resumable,
            None => false,
        }
    }

    /// Whether this run waits for background tasks.
    pub open spec fn waits_for_background(self) -> bool {
        &&& self.status == RunStatus::Waiting
        &&& self.waiting matches Some(w) && w.reason == WaitingReason::BackgroundTasks
    }

    /// Whether this run waits for background tasks.
    pub fn is_background_task_waiting(&self) -> (r: bool)
        ensures
            r == self.waits_for_background(),
    {
        match &self.waiting {
            Some(w) => self.status == RunStatus::Waiting && w.reason
                == WaitingReason::BackgroundTasks,
            None => false,
        }
    }
}

/// The result of a run as it is recorded on its dispatch.
#[derive(Clone, Debug, PartialEq)]
pub struct RunDispatchResult {
    pub run_id: String,
    pub dispatch_instance_id: String,
    pub status: RunStatus,
    pub termination: Option<TerminationReason>,
    pub response: Option<String>,
    pub error: Option<String>,
}

/// A copy of a list of texts.
pub fn copy_texts(v: &Vec<String>) -> (r: Vec<String>)
    ensures
        r@ == v@,
{
    let mut out: Vec<String> = Vec::new();
    let mut i: usize = 0;
    while i < v.len()
        invariant
            i <= v@.len(),
            out@ =~= v@.take(i as int),
        decreases v@.len() - i,
    {
        out.push(v[i].clone());
        i = i + 1;
    }
    assert(out@ =~= v@);
    out
}

/// A run is done when it ends, but for an end that says otherwise of its status.
pub proof fn lemma_ends_leave_the_run_done(reason: TerminationReason)
    ensures
        reason is NaturalEnd || reason is Cancelled || reason is Error ==> reason.run_status()
            == RunStatus::Done,
        reason matches TerminationReason::Other { status, .. } ==> reason.run_status() == status,
{
}

/// New input may continue a run exactly where the run waits and its wait says so; a run
/// is woken for background tasks exactly where it waits for them.
pub proof fn lemma_only_waiting_runs_go_on(run: RunRecord)
    ensures
        run.resumable() <==> run.status == RunStatus::Waiting && run.waiting is Some
            && run.waiting->0.resumable,
        run.waits_for_background() <==> run.status == RunStatus::Waiting && run.waiting is Some
            && run.waiting->0.reason == WaitingReason::BackgroundTasks,
{
}

/// A range holds exactly the numbers between its ends, which are both in it; there is no
/// empty range, and none with number zero.
pub proof fn lemma_range_has_its_ends(from_seq: u64, to_seq: u64)
    ensures
        MessageSeqRange::of(from_seq, to_seq) is Some <==> 1 <= from_seq <= to_seq,
        MessageSeqRange::of(from_seq, to_seq) matches Some(range) ==> range.from_seq == from_seq
            && range.to_seq == to_seq,
{
}

/// The input of a run whose log has `last` messages spans all of them, from the first to
/// the last, and names the messages that triggered it; an empty log gives no range.
pub proof fn lemma_input_spans_the_log(thread_id: Seq<char>, last: u64, triggers: Seq<Seq<char>>)
    ensures
        whole_log_input(thread_id, last, triggers).thread_id == thread_id,
        whole_log_input(thread_id, last, triggers).trigger_message_ids == triggers,
        whole_log_input(thread_id, last, triggers).selected_message_ids.len() == 0,
        whole_log_input(thread_id, last, triggers).range is Some <==> last > 0,
        last > 0 ==> whole_log_input(thread_id, last, triggers).range == Some(
            MessageSeqRange { from_seq: 1, to_seq: last },
        ),
        whole_log_input(thread_id, last, triggers).context_policy is None,
        whole_log_input(thread_id, last, triggers).compacted_snapshot_id is None,
{
}

} // verus!
