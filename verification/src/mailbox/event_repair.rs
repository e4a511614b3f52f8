//! The repair at startup of checkpoint events that failed to publish after a commit.
//!
//! The repair derives from the run records the events of the messages that each run
//! committed itself, so that what was published before is published under the same
//! keys. A record names as triggers what the last activation of its run committed. What
//! an earlier one committed, and what a record without triggers committed, is told from
//! the ranges: a message that was taken in and that no run names goes to the first run
//! whose range holds it. Where another run committed on the thread between two
//! activations of one run, and no run names the message any more, that run may be the
//! other one; and an assistant's or a tool's message that no run names is not told of
//! again.

use vstd::prelude::*;

use crate::error::{Fault, StorageError};
use crate::lists::{lists, names};
use crate::mailbox::config::REPAIR_PAGE_SIZE;
use crate::mailbox::helpers::ids_of;
use crate::mailbox::recovery::RunPage;
use crate::mailbox::server_event_capture::{
    has_event, is_checkpoint, is_checkpoint_fault, is_message_committed, range_has_events,
    record_thread_message_checkpoint_events, validate_checkpoint_event_range, EventDraft,
};
use crate::message::{text_view, texts, Message, Role};
use crate::run::{MessageSeqRange, RunMessageInput, RunRecord};
use crate::text::{blank, same_text};

verus! {

/// The operation that is due in the repair of checkpoint events from the run
/// records.
///
/// The pages of runs come first, and with each run the messages that it names as its
/// triggers. A run that was continued names the messages of its last activation
/// alone, so what no run names comes behind, once all runs are known.
#[derive(Debug, PartialEq)]
pub enum EventRepairStep {
    /// List the runs from an offset.
    ListRuns { offset: usize },
    /// Load the messages of the thread that the input of the run `at` of the page is
    /// on.
    LoadMessages {
        offset: usize,
        page: RunPage,
        at: usize,
        range: MessageSeqRange,
        thread_id: String,
    },
    /// Publish the events of the messages that the run `at` of the page names.
    Publish {
        offset: usize,
        page: RunPage,
        at: usize,
        range: MessageSeqRange,
        events: Vec<EventDraft>,
    },
    /// Load the messages of the thread that the input of the run `at` is on, for those
    /// that no run names.
    LoadLeft { at: usize, range: MessageSeqRange, thread_id: String },
    /// Publish the events of the messages that no run names and that are left to the
    /// run `at`.
    PublishLeft { at: usize, events: Vec<EventDraft> },
    /// The repair is over: how many messages the ranges of the runs span.
    Done { outcome: Result<usize, Fault> },
}

/// The reply to the operation of a step.
#[derive(Debug, PartialEq)]
pub enum EventRepairReply {
    Runs(Result<RunPage, StorageError>),
    Messages(Result<Option<Vec<Message>>, StorageError>),
    Published,
    NotPublished(Fault),
}

/// The repair of checkpoint events from the run records, with the runs of the pages
/// that are done.
#[derive(Debug, PartialEq)]
pub struct EventRepair {
    pub repaired: usize,
    pub runs: Vec<RunRecord>,
    pub step: EventRepairStep,
}

/// How many messages a range spans.
pub open spec fn span(range: MessageSeqRange) -> int {
    if range.from_seq <= range.to_seq {
        range.to_seq - range.from_seq + 1
    } else {
        0
    }
}

/// The range of messages that a run took as its input.
pub open spec fn input_range(run: RunRecord) -> Option<MessageSeqRange> {
    match run.input {
        Some(input) => input.range,
        None => None,
    }
}

/// Whether a reply is one that the operation of the due step gives. The offset and
/// the count stay within a machine word.
pub open spec fn event_repair_answers(repair: EventRepair, reply: EventRepairReply) -> bool {
    match repair.step {
        EventRepairStep::ListRuns { offset } => reply is Runs && offset + REPAIR_PAGE_SIZE
            <= usize::MAX,
        EventRepairStep::LoadMessages { page, at, range, .. } => reply is Messages && at
            < page.items@.len() && input_range(page.items@[at as int]) == Some(range),
        EventRepairStep::Publish { offset, page, at, range, .. } => (reply is Published
            || reply is NotPublished) && at < page.items@.len() && offset + REPAIR_PAGE_SIZE
            <= usize::MAX && repair.repaired + span(range) <= usize::MAX && span(range)
            <= u64::MAX,
        EventRepairStep::LoadLeft { at, range, .. } => reply is Messages && at
            < repair.runs@.len() && input_range(repair.runs@[at as int]) == Some(range),
        EventRepairStep::PublishLeft { at, .. } => (reply is Published || reply is NotPublished)
            && at < repair.runs@.len(),
        EventRepairStep::Done { .. } => false,
    }
}

/// The first run from `at` on that took messages, or the end.
pub open spec fn next_with_input(runs: Seq<RunRecord>, at: int) -> int
    decreases runs.len() - at,
{
    if at < 0 || at >= runs.len() {
        runs.len() as int
    } else if input_range(runs[at]) is Some {
        at
    } else {
        next_with_input(runs, at + 1)
    }
}

/// The step at the next run from `at` on that took messages, for the messages that no
/// run names.
pub open spec fn at_left(runs: Seq<RunRecord>, repaired: usize, at: int) -> EventRepairStep {
    let next = next_with_input(runs, at);
    if next < runs.len() {
        EventRepairStep::LoadLeft {
            at: next as usize,
            range: input_range(runs[next])->0,
            thread_id: runs[next].input->0.thread_id,
        }
    } else {
        EventRepairStep::Done { outcome: Ok(repaired) }
    }
}

/// Whether `after` is the repair at the next run from `at` on that took messages, or
/// behind the page.
pub open spec fn is_at_input(
    runs: Vec<RunRecord>,
    offset: usize,
    page: RunPage,
    at: int,
    after: EventRepair,
) -> bool {
    let next = next_with_input(page.items@, at);
    if next < page.items@.len() {
        &&& after.runs == runs
        &&& after.step == (EventRepairStep::LoadMessages {
            offset,
            page,
            at: next as usize,
            range: input_range(page.items@[next])->0,
            thread_id: page.items@[next].input->0.thread_id,
        })
    } else {
        &&& after.runs@ == runs@ + page.items@
        &&& after.step == (if page.has_more {
            EventRepairStep::ListRuns { offset: (offset + REPAIR_PAGE_SIZE) as usize }
        } else {
            at_left(after.runs@, after.repaired, 0)
        })
    }
}

/// Whether the message with a sequence number is one that a run names among its
/// triggers: what the last activation of the run committed.
pub open spec fn is_own(messages: Seq<Message>, triggers: Seq<String>, seq: int) -> bool {
    &&& 1 <= seq <= messages.len()
    &&& messages[seq - 1].id matches Some(id) && names(triggers, id@)
}

/// Whether the input of a run is on a thread and its range holds a sequence number.
pub open spec fn reaches(run: RunRecord, thread_id: Seq<char>, seq: int) -> bool {
    &&& run.input matches Some(input) && input.thread_id@ == thread_id
    &&& input_range(run) matches Some(range) && range.from_seq <= seq <= range.to_seq
}

/// Whether the range of a run holds a message, and the run names it among its triggers.
pub open spec fn claims(
    run: RunRecord,
    thread_id: Seq<char>,
    messages: Seq<Message>,
    seq: int,
) -> bool {
    reaches(run, thread_id, seq) && is_own(messages, run.input->0.trigger_message_ids@, seq)
}

/// Whether one of the runs names a message of its range.
pub open spec fn is_named(
    runs: Seq<RunRecord>,
    thread_id: Seq<char>,
    messages: Seq<Message>,
    seq: int,
) -> bool {
    exists|j: int| 0 <= j < runs.len() && #[trigger] claims(runs[j], thread_id, messages, seq)
}

/// Whether the range of the run `k` ends before that of the run `j`, or with it and
/// `k` comes first.
pub open spec fn ends_first(runs: Seq<RunRecord>, k: int, j: int) -> bool {
    let end = input_range(runs[k])->0.to_seq;
    let other = input_range(runs[j])->0.to_seq;
    end < other || (end == other && k <= j)
}

/// Whether a message is one that a run takes in, and not one that it gives out.
pub open spec fn is_input(message: Message) -> bool {
    message.role == Role::User || message.role == Role::System
}

/// Whether the message with a sequence number is left to the run `k`: it is one that was
/// taken in, no run of the thread names it, and the run is the first whose range holds
/// it. That run committed it, unless another one committed it past that run's commits
/// and was continued since.
pub open spec fn is_left(
    messages: Seq<Message>,
    runs: Seq<RunRecord>,
    thread_id: Seq<char>,
    k: int,
    seq: int,
) -> bool {
    &&& has_event(messages, seq)
    &&& is_input(messages[seq - 1])
    &&& !is_named(runs, thread_id, messages, seq)
    &&& 0 <= k < runs.len() && reaches(runs[k], thread_id, seq)
    &&& forall|j: int|
        0 <= j < runs.len() && #[trigger] reaches(runs[j], thread_id, seq) ==> ends_first(
            runs,
            k,
            j,
        )
}

/// Which messages of a log a run names among its triggers.
pub open spec fn own_marks(messages: Seq<Message>, triggers: Seq<String>) -> Seq<bool> {
    Seq::new(messages.len(), |i: int| is_own(messages, triggers, i + 1))
}

/// Which messages of a log no run names and are left to the run `k`.
pub open spec fn left_marks(
    messages: Seq<Message>,
    runs: Seq<RunRecord>,
    thread_id: Seq<char>,
    k: int,
) -> Seq<bool> {
    Seq::new(messages.len(), |i: int| is_left(messages, runs, thread_id, k, i + 1))
}

/// Whether the message with a sequence number is marked.
pub open spec fn is_marked(marks: Seq<bool>, seq: int) -> bool {
    1 <= seq <= marks.len() && marks[seq - 1]
}

/// Whether one of the blocks spans a sequence number.
pub open spec fn in_blocks(blocks: Seq<MessageSeqRange>, seq: int) -> bool {
    exists|k: int|
        0 <= k < blocks.len() && (#[trigger] blocks[k]).from_seq <= seq <= blocks[k].to_seq
}

/// Whether blocks are the marked messages of a range, put together as far as they
/// follow on each other, in order.
pub open spec fn are_blocks(
    blocks: Seq<MessageSeqRange>,
    marks: Seq<bool>,
    first: int,
    last: int,
) -> bool {
    &&& forall|k: int|
        0 <= k < blocks.len() ==> first <= (#[trigger] blocks[k]).from_seq <= blocks[k].to_seq
            <= last
    &&& forall|j: int, k: int|
        #![trigger blocks[j], blocks[k]]
        0 <= j < k < blocks.len() ==> blocks[j].to_seq + 1 < blocks[k].from_seq
    &&& forall|seq: int|
        first <= seq <= last ==> #[trigger] is_marked(marks, seq) == in_blocks(blocks, seq)
}

/// Whether events are those of a checkpoint of each block, one block after another.
pub open spec fn is_repair(
    events: Seq<EventDraft>,
    thread_id: Seq<char>,
    run_id: Seq<char>,
    messages: Seq<Message>,
    blocks: Seq<MessageSeqRange>,
) -> bool
    decreases blocks.len(),
{
    if blocks.len() == 0 {
        events.len() == 0
    } else {
        let block = blocks.last();
        let before = events.len() - span(block) - 1;
        &&& before >= 0
        &&& is_checkpoint(
            events.skip(before),
            thread_id,
            run_id,
            messages,
            block.from_seq,
            block.to_seq,
        )
        &&& is_repair(events.take(before), thread_id, run_id, messages, blocks.drop_last())
    }
}

/// Whether events are those of the marked messages in the range of a run's input.
pub open spec fn repairs(
    events: Seq<EventDraft>,
    run: RunRecord,
    range: MessageSeqRange,
    messages: Seq<Message>,
    marks: Seq<bool>,
) -> bool {
    exists|blocks: Seq<MessageSeqRange>| #[trigger]
        are_blocks(blocks, marks, range.from_seq as int, range.to_seq as int) && is_repair(
            events,
            run.input->0.thread_id@,
            run.run_id@,
            messages,
            blocks,
        )
}

/// Whether an outcome has the events of the marked messages in the range of a run's
/// input, or the fault that the range has messages without events.
pub open spec fn is_made(
    made: Result<Vec<EventDraft>, Fault>,
    run: RunRecord,
    range: MessageSeqRange,
    messages: Seq<Message>,
    marks: Seq<bool>,
) -> bool {
    if range_has_events(messages, range.from_seq, range.to_seq) {
        made matches Ok(events) && repairs(events@, run, range, messages, marks)
    } else {
        made matches Err(fault) && is_checkpoint_fault(
            fault,
            run.input->0.thread_id,
            run.run_id,
            messages,
            range.from_seq,
            range.to_seq,
        )
    }
}

/// Whether `after` is the step that loaded messages lead to: the events of the messages
/// that the run names.
pub open spec fn follows_messages(
    offset: usize,
    page: RunPage,
    at: usize,
    range: MessageSeqRange,
    messages: Seq<Message>,
    after: EventRepairStep,
) -> bool {
    let run = page.items@[at as int];
    let marks = own_marks(messages, run.input->0.trigger_message_ids@);
    match after {
        EventRepairStep::Publish { offset: o, page: p, at: i, range: g, events } => {
            &&& o == offset
            &&& p == page
            &&& i == at
            &&& g == range
            &&& is_made(Ok(events), run, range, messages, marks)
        },
        EventRepairStep::Done { outcome: Err(fault) } => is_made(
            Err(fault),
            run,
            range,
            messages,
            marks,
        ),
        _ => false,
    }
}

/// Whether `after` is the step that loaded messages lead to: the events of the messages
/// that no run names and that are left to the run.
pub open spec fn follows_left(
    runs: Seq<RunRecord>,
    at: usize,
    range: MessageSeqRange,
    messages: Seq<Message>,
    after: EventRepairStep,
) -> bool {
    let run = runs[at as int];
    let marks = left_marks(messages, runs, run.input->0.thread_id@, at as int);
    match after {
        EventRepairStep::PublishLeft { at: i, events } => i == at && is_made(
            Ok(events),
            run,
            range,
            messages,
            marks,
        ),
        EventRepairStep::Done { outcome: Err(fault) } => is_made(
            Err(fault),
            run,
            range,
            messages,
            marks,
        ),
        _ => false,
    }
}

/// The messages of a thread: none where the thread is not there.
pub open spec fn loaded(found: Option<Vec<Message>>) -> Seq<Message> {
    match found {
        Some(messages) => messages@,
        None => seq![],
    }
}

/// Whether `after` is what a reply leads to.
pub open spec fn event_repair_follows(
    before: EventRepair,
    reply: EventRepairReply,
    after: EventRepair,
) -> bool {
    let same = after.repaired == before.repaired;
    let same_runs = after.runs == before.runs;
    match (before.step, reply) {
        (EventRepairStep::ListRuns { offset }, EventRepairReply::Runs(result)) => same && (
        match result {
            Err(error) => same_runs && after.step == (EventRepairStep::Done {
                outcome: Err(Fault::Store(error)),
            }),
            Ok(page) => is_at_input(before.runs, offset, page, 0, after),
        }),
        (
            EventRepairStep::LoadMessages { offset, page, at, range, .. },
            EventRepairReply::Messages(result),
        ) => same && same_runs && match result {
            Err(error) => after.step == (EventRepairStep::Done {
                outcome: Err(Fault::Store(error)),
            }),
            Ok(found) => follows_messages(offset, page, at, range, loaded(found), after.step),
        },
        (
            EventRepairStep::Publish { offset, page, at, range, .. },
            EventRepairReply::Published,
        ) => after.repaired == before.repaired + span(range) && is_at_input(
            before.runs,
            offset,
            page,
            at + 1,
            after,
        ),
        (
            EventRepairStep::LoadLeft { at, range, .. },
            EventRepairReply::Messages(result),
        ) => same && same_runs && match result {
            Err(error) => after.step == (EventRepairStep::Done {
                outcome: Err(Fault::Store(error)),
            }),
            Ok(found) => follows_left(before.runs@, at, range, loaded(found), after.step),
        },
        (EventRepairStep::PublishLeft { at, .. }, EventRepairReply::Published) => same && same_runs
            && after.step == at_left(before.runs@, before.repaired, at + 1),
        (EventRepairStep::Publish { .. }, EventRepairReply::NotPublished(fault)) => same
            && same_runs && after.step == (EventRepairStep::Done { outcome: Err(fault) }),
        (EventRepairStep::PublishLeft { .. }, EventRepairReply::NotPublished(fault)) => same
            && same_runs && after.step == (EventRepairStep::Done { outcome: Err(fault) }),
        _ => false,
    }
}

fn range_and_thread(run: &RunRecord) -> (r: Option<(MessageSeqRange, String)>)
    ensures
        match r {
            Some((range, thread_id)) => input_range(*run) == Some(range) && thread_id
                == run.input->0.thread_id,
            None => input_range(*run) is None,
        },
{
    match &run.input {
        Some(input) => match input.range {
            Some(range) => Some((range, input.thread_id.clone())),
            None => None,
        },
        None => None,
    }
}

fn left_step(runs: &Vec<RunRecord>, repaired: usize, from: usize) -> (r: EventRepairStep)
    requires
        from <= runs@.len(),
    ensures
        r == at_left(runs@, repaired, from as int),
{
    let mut at: usize = from;
    while at < runs.len()
        invariant
            from <= at <= runs@.len(),
            next_with_input(runs@, from as int) == next_with_input(runs@, at as int),
        decreases runs@.len() - at,
    {
        match range_and_thread(&runs[at]) {
            Some((range, thread_id)) => {
                return EventRepairStep::LoadLeft { at, range, thread_id };
            },
            None => {},
        }
        at = at + 1;
    }
    EventRepairStep::Done { outcome: Ok(repaired) }
}

fn input_step(
    repaired: usize,
    runs: Vec<RunRecord>,
    offset: usize,
    page: RunPage,
    from: usize,
) -> (r: EventRepair)
    requires
        from <= page.items@.len(),
        offset + REPAIR_PAGE_SIZE <= usize::MAX,
    ensures
        r.repaired == repaired,
        is_at_input(runs, offset, page, from as int, r),
{
    let mut at: usize = from;
    while at < page.items.len()
        invariant
            from <= at <= page.items@.len(),
            next_with_input(page.items@, from as int) == next_with_input(page.items@, at as int),
        decreases page.items@.len() - at,
    {
        match range_and_thread(&page.items[at]) {
            Some((range, thread_id)) => {
                let step = EventRepairStep::LoadMessages { offset, page, at, range, thread_id };
                return EventRepair { repaired, runs, step };
            },
            None => {},
        }
        at = at + 1;
    }
    let has_more = page.has_more;
    let mut items = page.items;
    let mut known = runs;
    known.append(&mut items);
    let step = if has_more {
        EventRepairStep::ListRuns { offset: offset + REPAIR_PAGE_SIZE }
    } else {
        left_step(&known, repaired, 0)
    };
    EventRepair { repaired, runs: known, step }
}

fn mark_own(messages: &Vec<Message>, triggers: &Vec<String>) -> (r: Vec<bool>)
    ensures
        r@ == own_marks(messages@, triggers@),
{
    let mut marks: Vec<bool> = Vec::new();
    let mut i: usize = 0;
    while i < messages.len()
        invariant
            i <= messages@.len(),
            marks@.len() == i,
            forall|k: int|
                0 <= k < i ==> #[trigger] marks@[k] == is_own(messages@, triggers@, k + 1),
        decreases messages@.len() - i,
    {
        let own = match &messages[i].id {
            Some(id) => lists(triggers, id),
            None => false,
        };
        marks.push(own);
        i = i + 1;
    }
    assert(marks@ =~= own_marks(messages@, triggers@));
    marks
}

fn run_reaches(run: &RunRecord, thread_id: &String, seq: u64) -> (r: bool)
    ensures
        r == reaches(*run, thread_id@, seq as int),
{
    match &run.input {
        Some(input) => match input.range {
            Some(range) => same_text(input.thread_id.as_str(), thread_id.as_str())
                && range.from_seq <= seq && seq <= range.to_seq,
            None => false,
        },
        None => false,
    }
}

fn some_run_names(
    runs: &Vec<RunRecord>,
    thread_id: &String,
    messages: &Vec<Message>,
    seq: u64,
    id: &String,
) -> (r: bool)
    requires
        1 <= seq <= messages@.len(),
        messages@[seq - 1].id == Some(*id),
    ensures
        r == is_named(runs@, thread_id@, messages@, seq as int),
{
    let mut j: usize = 0;
    while j < runs.len()
        invariant
            j <= runs@.len(),
            1 <= seq <= messages@.len(),
            messages@[seq - 1].id == Some(*id),
            forall|k: int|
                0 <= k < j ==> !(#[trigger] claims(runs@[k], thread_id@, messages@, seq as int)),
        decreases runs@.len() - j,
    {
        let named = run_reaches(&runs[j], thread_id, seq) && match &runs[j].input {
            Some(input) => lists(&input.trigger_message_ids, id),
            None => false,
        };
        assert(named == claims(runs@[j as int], thread_id@, messages@, seq as int));
        if named {
            return true;
        }
        j = j + 1;
    }
    false
}

fn reaches_first(
    runs: &Vec<RunRecord>,
    thread_id: &String,
    k: usize,
    end: u64,
    seq: u64,
) -> (r: bool)
    requires
        k < runs@.len(),
        input_range(runs@[k as int]) matches Some(range) && range.to_seq == end,
    ensures
        r == (forall|j: int|
            0 <= j < runs@.len() && #[trigger] reaches(runs@[j], thread_id@, seq as int)
                ==> ends_first(runs@, k as int, j)),
{
    let mut j: usize = 0;
    while j < runs.len()
        invariant
            j <= runs@.len(),
            k < runs@.len(),
            input_range(runs@[k as int]) matches Some(range) && range.to_seq == end,
            forall|i: int|
                0 <= i < j && #[trigger] reaches(runs@[i], thread_id@, seq as int) ==> ends_first(
                    runs@,
                    k as int,
                    i,
                ),
        decreases runs@.len() - j,
    {
        if run_reaches(&runs[j], thread_id, seq) {
            let other: u64 = match &runs[j].input {
                Some(input) => match input.range {
                    Some(range) => range.to_seq,
                    None => 0,
                },
                None => 0,
            };
            assert(reaches(runs@[j as int], thread_id@, seq as int));
            if !(end < other || (end == other && k <= j)) {
                assert(!ends_first(runs@, k as int, j as int));
                return false;
            }
        }
        j = j + 1;
    }
    true
}

fn mark_left(
    messages: &Vec<Message>,
    runs: &Vec<RunRecord>,
    thread_id: &String,
    k: usize,
    range: MessageSeqRange,
) -> (r: Vec<bool>)
    requires
        k < runs@.len(),
        input_range(runs@[k as int]) == Some(range),
        runs@[k as int].input->0.thread_id@ == thread_id@,
    ensures
        r@ == left_marks(messages@, runs@, thread_id@, k as int),
{
    let mut marks: Vec<bool> = Vec::new();
    let mut i: usize = 0;
    while i < messages.len()
        invariant
            i <= messages@.len(),
            k < runs@.len(),
            input_range(runs@[k as int]) == Some(range),
            marks@.len() == i,
            forall|n: int|
                0 <= n < i ==> #[trigger] marks@[n] == is_left(
                    messages@,
                    runs@,
                    thread_id@,
                    k as int,
                    n + 1,
                ),
        decreases messages@.len() - i,
    {
        let message = &messages[i];
        let seq: u64 = i as u64 + 1;
        let taken_in = match message.role {
            Role::User => true,
            Role::System => true,
            _ => false,
        };
        let left = match &message.id {
            Some(id) => taken_in && !blank(id.as_str()) && run_reaches(&runs[k], thread_id, seq)
                && !some_run_names(runs, thread_id, messages, seq, id) && reaches_first(
                runs,
                thread_id,
                k,
                range.to_seq,
                seq,
            ),
            None => false,
        };
        assert(left == is_left(messages@, runs@, thread_id@, k as int, i + 1));
        marks.push(left);
        i = i + 1;
    }
    assert(marks@ =~= left_marks(messages@, runs@, thread_id@, k as int));
    marks
}

/// The blocks of the marked messages of a range.
fn blocks_of(marks: &Vec<bool>, range: MessageSeqRange) -> (r: Vec<MessageSeqRange>)
    requires
        1 <= range.from_seq <= range.to_seq <= marks@.len(),
    ensures
        are_blocks(r@, marks@, range.from_seq as int, range.to_seq as int),
{
    let mut blocks: Vec<MessageSeqRange> = Vec::new();
    let count: usize = marks.len();
    assert(range.to_seq <= count);
    let end: usize = range.to_seq as usize;
    let mut done: usize = (range.from_seq - 1) as usize;
    while done < end
        invariant
            1 <= range.from_seq <= range.to_seq,
            end == range.to_seq <= marks@.len(),
            range.from_seq - 1 <= done <= end,
            are_blocks(blocks@, marks@, range.from_seq as int, done as int),
            done == end || blocks@.len() == 0 || blocks@.last().to_seq < done || !is_marked(
                marks@,
                done + 1,
            ),
        decreases end - done,
    {
        let ghost before = blocks@;
        let ghost start = done;
        assert(is_marked(marks@, done + 1) == marks@[done as int]);
        if marks[done] {
            let first: u64 = done as u64 + 1;
            done = done + 1;
            while done < end && marks[done]
                invariant
                    end == range.to_seq <= marks@.len(),
                    first <= done <= end,
                    forall|seq: int| first <= seq <= done ==> #[trigger] is_marked(marks@, seq),
                ensures
                    first <= done <= end,
                    forall|seq: int| first <= seq <= done ==> #[trigger] is_marked(marks@, seq),
                    done == end || !is_marked(marks@, done + 1),
                decreases end - done,
            {
                done = done + 1;
            }
            let block = MessageSeqRange { from_seq: first, to_seq: done as u64 };
            blocks.push(block);
            proof {
                assert(blocks@ == before.push(block));
                lemma_in_more_blocks(before, block);
                assert forall|seq: int| range.from_seq <= seq <= done implies #[trigger] is_marked(
                    marks@,
                    seq,
                ) == in_blocks(blocks@, seq) by {
                    if seq > start {
                        assert(!in_blocks(before, seq));
                    }
                }
            }
        } else {
            done = done + 1;
            assert(!in_blocks(blocks@, done as int));
        }
    }
    blocks
}

proof fn lemma_in_more_blocks(blocks: Seq<MessageSeqRange>, block: MessageSeqRange)
    ensures
        forall|seq: int| #[trigger]
            in_blocks(blocks.push(block), seq) == (in_blocks(blocks, seq) || block.from_seq <= seq
                <= block.to_seq),
{
    let more = blocks.push(block);
    assert forall|seq: int| #[trigger]
        in_blocks(more, seq) == (in_blocks(blocks, seq) || block.from_seq <= seq
            <= block.to_seq) by {
        if in_blocks(blocks, seq) {
            let k = choose|k: int|
                0 <= k < blocks.len() && (#[trigger] blocks[k]).from_seq <= seq <= blocks[k].to_seq;
            assert(more[k] == blocks[k]);
        }
        if block.from_seq <= seq <= block.to_seq {
            assert(more[blocks.len() as int] == block);
        }
        if in_blocks(more, seq) {
            let k = choose|k: int|
                0 <= k < more.len() && (#[trigger] more[k]).from_seq <= seq <= more[k].to_seq;
            if k < blocks.len() {
                assert(more[k] == blocks[k]);
            }
        }
    }
}

/// The events of a checkpoint of each block of the marked messages of a range.
fn block_events(
    thread_id: &String,
    run_id: &String,
    messages: &Vec<Message>,
    marks: &Vec<bool>,
    range: MessageSeqRange,
) -> (r: Vec<EventDraft>)
    requires
        marks@.len() == messages@.len(),
        1 <= range.from_seq <= range.to_seq <= messages@.len(),
        range_has_events(messages@, range.from_seq, range.to_seq),
    ensures
        exists|blocks: Seq<MessageSeqRange>| #[trigger]
            are_blocks(blocks, marks@, range.from_seq as int, range.to_seq as int) && is_repair(
                r@,
                thread_id@,
                run_id@,
                messages@,
                blocks,
            ),
{
    let blocks = blocks_of(marks, range);
    let mut events: Vec<EventDraft> = Vec::new();
    let mut at: usize = 0;
    assert(blocks@.take(0) =~= Seq::<MessageSeqRange>::empty());
    while at < blocks.len()
        invariant
            at <= blocks@.len(),
            1 <= range.from_seq <= range.to_seq <= messages@.len(),
            range_has_events(messages@, range.from_seq, range.to_seq),
            are_blocks(blocks@, marks@, range.from_seq as int, range.to_seq as int),
            is_repair(events@, thread_id@, run_id@, messages@, blocks@.take(at as int)),
        decreases blocks@.len() - at,
    {
        let block: MessageSeqRange = blocks[at];
        proof {
            let more = blocks@.take(at as int + 1);
            assert(more.drop_last() =~= blocks@.take(at as int));
            assert(more.last() == block);
        }
        let ghost before = events@;
        assert forall|seq: int| block.from_seq <= seq <= block.to_seq implies #[trigger] has_event(
            messages@,
            seq,
        ) by {
            assert(range.from_seq <= seq <= range.to_seq);
        }
        match record_thread_message_checkpoint_events(
            true,
            thread_id,
            run_id,
            messages,
            block.from_seq,
            block.to_seq,
        ) {
            Ok(made) => {
                let mut more = made;
                let ghost added = more@;
                events.append(&mut more);
                assert(events@ == before + added);
                assert(events@.skip(before.len() as int) =~= added);
                assert(events@.take(before.len() as int) =~= before);
            },
            Err(_) => {},
        }
        at = at + 1;
    }
    assert(blocks@.take(at as int) =~= blocks@);
    events
}

fn make_events(
    run: &RunRecord,
    input: &RunMessageInput,
    range: MessageSeqRange,
    messages: &Vec<Message>,
    marks: &Vec<bool>,
) -> (r: Result<Vec<EventDraft>, Fault>)
    requires
        run.input == Some(*input),
        marks@.len() == messages@.len(),
    ensures
        is_made(r, *run, range, messages@, marks@),
{
    match validate_checkpoint_event_range(
        &input.thread_id,
        &run.run_id,
        messages,
        range.from_seq,
        range.to_seq,
    ) {
        Err(fault) => Err(fault),
        Ok(_) => if range.from_seq > range.to_seq {
            let events: Vec<EventDraft> = Vec::new();
            assert(are_blocks(
                Seq::<MessageSeqRange>::empty(),
                marks@,
                range.from_seq as int,
                range.to_seq as int,
            ));
            Ok(events)
        } else {
            assert(has_event(messages@, range.from_seq as int));
            assert(has_event(messages@, range.to_seq as int));
            Ok(block_events(&input.thread_id, &run.run_id, messages, marks, range))
        },
    }
}

fn on_messages(
    offset: usize,
    page: RunPage,
    at: usize,
    range: MessageSeqRange,
    messages: &Vec<Message>,
) -> (r: EventRepairStep)
    requires
        at < page.items@.len(),
        input_range(page.items@[at as int]) == Some(range),
    ensures
        follows_messages(offset, page, at, range, messages@, r),
{
    let made: Result<Vec<EventDraft>, Fault> = match &page.items[at].input {
        Some(input) => {
            let marks = mark_own(messages, &input.trigger_message_ids);
            make_events(&page.items[at], input, range, messages, &marks)
        },
        None => Ok(Vec::new()),
    };
    match made {
        Ok(events) => EventRepairStep::Publish { offset, page, at, range, events },
        Err(fault) => EventRepairStep::Done { outcome: Err(fault) },
    }
}

fn on_left(
    runs: &Vec<RunRecord>,
    at: usize,
    range: MessageSeqRange,
    messages: &Vec<Message>,
) -> (r: EventRepairStep)
    requires
        at < runs@.len(),
        input_range(runs@[at as int]) == Some(range),
    ensures
        follows_left(runs@, at, range, messages@, r),
{
    let made: Result<Vec<EventDraft>, Fault> = match &runs[at].input {
        Some(input) => {
            let marks = mark_left(messages, runs, &input.thread_id, at, range);
            make_events(&runs[at], input, range, messages, &marks)
        },
        None => Ok(Vec::new()),
    };
    match made {
        Ok(events) => EventRepairStep::PublishLeft { at, events },
        Err(fault) => EventRepairStep::Done { outcome: Err(fault) },
    }
}

fn load(found: Option<Vec<Message>>) -> (r: Vec<Message>)
    ensures
        r@ == loaded(found),
{
    match found {
        Some(messages) => messages,
        None => Vec::new(),
    }
}

fn counts(repaired: usize, range: &MessageSeqRange) -> (r: bool)
    ensures
        r == (repaired + span(*range) <= usize::MAX && span(*range) <= u64::MAX),
{
    if range.from_seq > range.to_seq {
        return true;
    }
    let wide: u128 = (range.to_seq as u128) - (range.from_seq as u128) + 1;
    wide <= u64::MAX as u128 && wide + repaired as u128 <= usize::MAX as u128
}

impl EventRepair {
    /// Begin the repair. Without a publisher there is nothing to repair.
    pub fn repair_thread_message_checkpoint_events(has_publisher: bool) -> (r: EventRepair)
        ensures
            r.repaired == 0,
            r.runs@.len() == 0,
            r.step == (if has_publisher {
                EventRepairStep::ListRuns { offset: 0 }
            } else {
                EventRepairStep::Done { outcome: Ok(0) }
            }),
    {
        let step = if has_publisher {
            EventRepairStep::ListRuns { offset: 0 }
        } else {
            EventRepairStep::Done { outcome: Ok(0) }
        };
        EventRepair { repaired: 0, runs: Vec::new(), step }
    }

    /// Whether a reply is one that the operation of the due step gives.
    pub fn expects(&self, reply: &EventRepairReply) -> (r: bool)
        ensures
            r == event_repair_answers(*self, *reply),
    {
        match (&self.step, reply) {
            (EventRepairStep::ListRuns { offset }, EventRepairReply::Runs(_)) => *offset
                <= usize::MAX - REPAIR_PAGE_SIZE,
            (
                EventRepairStep::LoadMessages { page, at, range, .. },
                EventRepairReply::Messages(_),
            ) => *at < page.items.len() && has_range(&page.items[*at], range),
            (EventRepairStep::LoadLeft { at, range, .. }, EventRepairReply::Messages(_)) => *at
                < self.runs.len() && has_range(&self.runs[*at], range),
            (
                EventRepairStep::Publish { offset, page, at, range, .. },
                EventRepairReply::Published,
            ) => *at < page.items.len() && *offset <= usize::MAX - REPAIR_PAGE_SIZE && counts(
                self.repaired,
                range,
            ),
            (
                EventRepairStep::Publish { offset, page, at, range, .. },
                EventRepairReply::NotPublished(_),
            ) => *at < page.items.len() && *offset <= usize::MAX - REPAIR_PAGE_SIZE && counts(
                self.repaired,
                range,
            ),
            (EventRepairStep::PublishLeft { at, .. }, EventRepairReply::Published) => *at
                < self.runs.len(),
            (EventRepairStep::PublishLeft { at, .. }, EventRepairReply::NotPublished(_)) => *at
                < self.runs.len(),
            _ => false,
        }
    }

    /// Take the reply to the operation that was due.
    pub fn advance(self, reply: EventRepairReply) -> (r: EventRepair)
        requires
            event_repair_answers(self, reply),
        ensures
            event_repair_follows(self, reply, r),
    {
        let repaired: usize = self.repaired;
        let runs = self.runs;
        match (self.step, reply) {
            (EventRepairStep::ListRuns { offset }, EventRepairReply::Runs(result)) => match result {
                Err(error) => EventRepair {
                    repaired,
                    runs,
                    step: EventRepairStep::Done { outcome: Err(Fault::Store(error)) },
                },
                Ok(page) => input_step(repaired, runs, offset, page, 0),
            },
            (
                EventRepairStep::LoadMessages { offset, page, at, range, thread_id: _ },
                EventRepairReply::Messages(result),
            ) => {
                let step = match result {
                    Err(error) => EventRepairStep::Done { outcome: Err(Fault::Store(error)) },
                    Ok(found) => on_messages(offset, page, at, range, &load(found)),
                };
                EventRepair { repaired, runs, step }
            },
            (
                EventRepairStep::Publish { offset, page, at, range, .. },
                EventRepairReply::Published,
            ) => {
                let count: usize = page.items.len();
                assert(at < count);
                let added: u64 = if range.from_seq <= range.to_seq {
                    range.to_seq - range.from_seq + 1
                } else {
                    0
                };
                input_step(repaired + added as usize, runs, offset, page, at + 1)
            },
            (
                EventRepairStep::LoadLeft { at, range, thread_id: _ },
                EventRepairReply::Messages(result),
            ) => {
                let step = match result {
                    Err(error) => EventRepairStep::Done { outcome: Err(Fault::Store(error)) },
                    Ok(found) => on_left(&runs, at, range, &load(found)),
                };
                EventRepair { repaired, runs, step }
            },
            (EventRepairStep::PublishLeft { at, events: _ }, EventRepairReply::Published) => {
                let count: usize = runs.len();
                assert(at < count);
                let step = left_step(&runs, repaired, at + 1);
                EventRepair { repaired, runs, step }
            },
            (_, EventRepairReply::NotPublished(fault)) => EventRepair {
                repaired,
                runs,
                step: EventRepairStep::Done { outcome: Err(fault) },
            },
            (step, _) => EventRepair { repaired, runs, step },
        }
    }
}

fn has_range(run: &RunRecord, range: &MessageSeqRange) -> (r: bool)
    ensures
        r == (input_range(*run) == Some(*range)),
{
    match &run.input {
        Some(input) => match &input.range {
            Some(own) => *own == *range,
            None => false,
        },
        None => false,
    }
}

/// Whether a log holds, up to its end, messages with the ids of another.
pub open spec fn has_ids_of(log: Seq<Message>, messages: Seq<Message>) -> bool {
    &&& log.len() <= messages.len()
    &&& forall|i: int|
        0 <= i < log.len() ==> text_view((#[trigger] log[i]).id) == text_view(messages[i].id)
}

/// Whether a key is one that was published.
pub open spec fn was_published(published: Seq<Seq<EventDraft>>, key: Seq<char>) -> bool {
    exists|k: int, j: int|
        #![trigger published[k][j]]
        0 <= k < published.len() && 0 <= j < published[k].len() && published[k][j].idempotency_key@
            == key
}

/// Whether a commit published the events of the messages from `first` to `last`, over
/// the log as the commit left it. The log has grown since, if it has changed.
pub open spec fn is_publication(
    published: Seq<EventDraft>,
    thread_id: Seq<char>,
    run_id: Seq<char>,
    messages: Seq<Message>,
    first: u64,
    last: u64,
) -> bool {
    exists|log: Seq<Message>| #[trigger]
        has_ids_of(log, messages) && 1 <= first <= last <= log.len() && range_has_events(
            log,
            first,
            last,
        ) && is_checkpoint(published, thread_id, run_id, log, first, last)
}

/// Checkpoints of one range over two logs with the same ids have the same keys.
proof fn lemma_checkpoints_have_the_same_keys(
    one: Seq<EventDraft>,
    other: Seq<EventDraft>,
    thread_id: Seq<char>,
    run_id: Seq<char>,
    log: Seq<Message>,
    messages: Seq<Message>,
    first: u64,
    last: u64,
)
    requires
        has_ids_of(log, messages),
        1 <= first <= last <= log.len(),
        range_has_events(log, first, last),
        is_checkpoint(one, thread_id, run_id, log, first, last),
        is_checkpoint(other, thread_id, run_id, messages, first, last),
    ensures
        one.len() == other.len(),
        forall|i: int|
            0 <= i < other.len() ==> (#[trigger] other[i]).idempotency_key@
                == one[i].idempotency_key@,
{
    assert forall|i: int| 0 <= i < other.len() implies (#[trigger] other[i]).idempotency_key@
        == one[i].idempotency_key@ by {
        if i <= last - first {
            let seq = (first + i) as u64;
            assert(is_message_committed(one[i], thread_id, run_id, log, seq));
            assert(is_message_committed(other[i], thread_id, run_id, messages, seq));
            assert(has_event(log, seq as int));
            assert(text_view(log[seq - 1].id) == text_view(messages[seq - 1].id));
        } else {
            assert(other[i] == other.last());
            assert(one[i] == one.last());
        }
    }
}

/// A repair cannot duplicate events: where the run committed each of the blocks in
/// one append or freeze, whatever the repair publishes has a key that was published
/// when the block was committed. `published` holds those first publications.
pub proof fn lemma_repair_publishes_nothing_new(
    events: Seq<EventDraft>,
    thread_id: Seq<char>,
    run_id: Seq<char>,
    messages: Seq<Message>,
    blocks: Seq<MessageSeqRange>,
    published: Seq<Seq<EventDraft>>,
    i: int,
)
    requires
        is_repair(events, thread_id, run_id, messages, blocks),
        published.len() == blocks.len(),
        forall|k: int|
            0 <= k < blocks.len() ==> is_publication(
                published[k],
                thread_id,
                run_id,
                messages,
                (#[trigger] blocks[k]).from_seq,
                blocks[k].to_seq,
            ),
        0 <= i < events.len(),
    ensures
        was_published(published, events[i].idempotency_key@),
    decreases blocks.len(),
{
    let n = blocks.len() - 1;
    let block = blocks.last();
    let before = events.len() - span(block) - 1;
    assert(blocks[n] == block);
    if i < before {
        let fewer = published.drop_last();
        assert forall|k: int| 0 <= k < blocks.drop_last().len() implies is_publication(
            fewer[k],
            thread_id,
            run_id,
            messages,
            (#[trigger] blocks.drop_last()[k]).from_seq,
            blocks.drop_last()[k].to_seq,
        ) by {
            assert(blocks.drop_last()[k] == blocks[k]);
        }
        lemma_repair_publishes_nothing_new(
            events.take(before),
            thread_id,
            run_id,
            messages,
            blocks.drop_last(),
            fewer,
            i,
        );
        let key = events[i].idempotency_key@;
        assert(was_published(fewer, key));
        let (k, j) = choose|k: int, j: int|
            #![trigger fewer[k][j]]
            0 <= k < fewer.len() && 0 <= j < fewer[k].len() && fewer[k][j].idempotency_key@ == key;
        assert(published[k][j].idempotency_key@ == key);
    } else {
        let log = choose|log: Seq<Message>| #[trigger]
            has_ids_of(log, messages) && 1 <= block.from_seq <= block.to_seq <= log.len()
                && range_has_events(log, block.from_seq, block.to_seq) && is_checkpoint(
                published[n],
                thread_id,
                run_id,
                log,
                block.from_seq,
                block.to_seq,
            );
        lemma_checkpoints_have_the_same_keys(
            published[n],
            events.skip(before),
            thread_id,
            run_id,
            log,
            messages,
            block.from_seq,
            block.to_seq,
        );
        assert(events.skip(before)[i - before] == events[i]);
        assert(published[n][i - before].idempotency_key@ == events[i].idempotency_key@);
    }
}

/// The event of a message is never new, however the commits of the run lie in the
/// log: it has the key under which the commit of the message published it.
pub proof fn lemma_message_events_are_never_new(
    event: EventDraft,
    published: Seq<EventDraft>,
    thread_id: Seq<char>,
    run_id: Seq<char>,
    messages: Seq<Message>,
    first: u64,
    last: u64,
    seq: u64,
)
    requires
        is_message_committed(event, thread_id, run_id, messages, seq),
        is_publication(published, thread_id, run_id, messages, first, last),
        first <= seq <= last,
    ensures
        was_published(seq![published], event.idempotency_key@),
{
    let log = choose|log: Seq<Message>| #[trigger]
        has_ids_of(log, messages) && 1 <= first <= last <= log.len() && range_has_events(
            log,
            first,
            last,
        ) && is_checkpoint(published, thread_id, run_id, log, first, last);
    let i = seq - first;
    assert(is_message_committed(published[i], thread_id, run_id, log, (first + i) as u64));
    assert(has_event(log, seq as int));
    assert(text_view(log[seq - 1].id) == text_view(messages[seq - 1].id));
    assert(seq![published][0][i].idempotency_key@ == event.idempotency_key@);
}

/// Whether one of the events tells that the message with a sequence number was
/// committed.
pub open spec fn tells_of(
    events: Seq<EventDraft>,
    thread_id: Seq<char>,
    run_id: Seq<char>,
    messages: Seq<Message>,
    seq: u64,
) -> bool {
    exists|i: int|
        0 <= i < events.len() && is_message_committed(
            #[trigger] events[i],
            thread_id,
            run_id,
            messages,
            seq,
        )
}

proof fn lemma_blocks_are_told_of(
    events: Seq<EventDraft>,
    thread_id: Seq<char>,
    run_id: Seq<char>,
    messages: Seq<Message>,
    blocks: Seq<MessageSeqRange>,
    k: int,
    seq: u64,
)
    requires
        is_repair(events, thread_id, run_id, messages, blocks),
        0 <= k < blocks.len(),
        blocks[k].from_seq <= seq <= blocks[k].to_seq,
    ensures
        tells_of(events, thread_id, run_id, messages, seq),
    decreases blocks.len(),
{
    let block = blocks.last();
    let before = events.len() - span(block) - 1;
    if k == blocks.len() - 1 {
        let tail = events.skip(before);
        let i = seq - block.from_seq;
        assert(is_message_committed(
            tail[i],
            thread_id,
            run_id,
            messages,
            (block.from_seq + i) as u64,
        ));
        assert(events[before + i] == tail[i]);
    } else {
        let head = events.take(before);
        lemma_blocks_are_told_of(
            head,
            thread_id,
            run_id,
            messages,
            blocks.drop_last(),
            k,
            seq,
        );
        let i = choose|i: int|
            0 <= i < head.len() && is_message_committed(
                #[trigger] head[i],
                thread_id,
                run_id,
                messages,
                seq,
            );
        assert(events[i] == head[i]);
    }
}

/// A repair misses no marked message: each in the range has its event among those that
/// are published.
pub proof fn lemma_repair_covers_what_is_marked(
    events: Seq<EventDraft>,
    thread_id: Seq<char>,
    run_id: Seq<char>,
    messages: Seq<Message>,
    marks: Seq<bool>,
    blocks: Seq<MessageSeqRange>,
    first: u64,
    last: u64,
    seq: u64,
)
    requires
        are_blocks(blocks, marks, first as int, last as int),
        is_repair(events, thread_id, run_id, messages, blocks),
        first <= seq <= last,
        is_marked(marks, seq as int),
    ensures
        tells_of(events, thread_id, run_id, messages, seq),
{
    assert(in_blocks(blocks, seq as int));
    let k = choose|k: int|
        0 <= k < blocks.len() && (#[trigger] blocks[k]).from_seq <= seq <= blocks[k].to_seq;
    lemma_blocks_are_told_of(events, thread_id, run_id, messages, blocks, k, seq);
}

proof fn lemma_some_run_is_first(
    runs: Seq<RunRecord>,
    thread_id: Seq<char>,
    seq: int,
    n: int,
) -> (k: int)
    requires
        0 < n <= runs.len(),
        exists|j: int| 0 <= j < n && #[trigger] reaches(runs[j], thread_id, seq),
    ensures
        0 <= k < n,
        reaches(runs[k], thread_id, seq),
        forall|j: int|
            0 <= j < n && #[trigger] reaches(runs[j], thread_id, seq) ==> ends_first(runs, k, j),
    decreases n,
{
    let last = n - 1;
    if exists|j: int| 0 <= j < last && #[trigger] reaches(runs[j], thread_id, seq) {
        let before = lemma_some_run_is_first(runs, thread_id, seq, last);
        if reaches(runs[last], thread_id, seq) && !ends_first(runs, before, last) {
            last
        } else {
            before
        }
    } else {
        last
    }
}

/// Every message that was taken in, and that the range of a run holds, is marked for
/// some run: for one that names it, or else for exactly one to which it is left.
pub proof fn lemma_every_input_message_is_marked(
    messages: Seq<Message>,
    runs: Seq<RunRecord>,
    thread_id: Seq<char>,
    seq: int,
)
    requires
        has_event(messages, seq),
        is_input(messages[seq - 1]),
        exists|j: int| 0 <= j < runs.len() && #[trigger] reaches(runs[j], thread_id, seq),
    ensures
        is_named(runs, thread_id, messages, seq) || exists|k: int| #[trigger]
            is_left(messages, runs, thread_id, k, seq),
        forall|k: int, j: int| #[trigger]
            is_left(messages, runs, thread_id, k, seq) && #[trigger] is_left(
                messages,
                runs,
                thread_id,
                j,
                seq,
            ) ==> k == j,
        is_named(runs, thread_id, messages, seq) ==> forall|k: int|
            !(#[trigger] is_left(messages, runs, thread_id, k, seq)),
{
    let k = lemma_some_run_is_first(runs, thread_id, seq, runs.len() as int);
    if !is_named(runs, thread_id, messages, seq) {
        assert(is_left(messages, runs, thread_id, k, seq));
    }
}

/// A run that was continued is repaired too: a message of an earlier activation that its
/// record no longer names, in a range that no other run holds, is left to it.
pub proof fn lemma_continued_run_is_repaired(
    messages: Seq<Message>,
    runs: Seq<RunRecord>,
    thread_id: Seq<char>,
    k: int,
    seq: int,
)
    requires
        0 <= k < runs.len(),
        reaches(runs[k], thread_id, seq),
        forall|j: int| 0 <= j < runs.len() && #[trigger] reaches(runs[j], thread_id, seq) ==> j == k,
        has_event(messages, seq),
        is_input(messages[seq - 1]),
    ensures
        is_own(messages, runs[k].input->0.trigger_message_ids@, seq) || is_left(
            messages,
            runs,
            thread_id,
            k,
            seq,
        ),
{
    if !is_own(messages, runs[k].input->0.trigger_message_ids@, seq) {
        assert forall|j: int| 0 <= j < runs.len() implies !(#[trigger] claims(
            runs[j],
            thread_id,
            messages,
            seq,
        )) by {
            if reaches(runs[j], thread_id, seq) {
                assert(j == k);
            }
        }
        assert(is_left(messages, runs, thread_id, k, seq));
    }
}

proof fn lemma_ids_are_listed(messages: Seq<Message>, i: int)
    requires
        0 <= i < messages.len(),
        messages[i].id is Some,
    ensures
        ids_of(messages).contains(messages[i].id->0@),
    decreases messages.len(),
{
    let id = messages[i].id->0@;
    let fewer = ids_of(messages.drop_last());
    if i < messages.len() - 1 {
        lemma_ids_are_listed(messages.drop_last(), i);
        let k = choose|k: int| 0 <= k < fewer.len() && fewer[k] == id;
        assert(ids_of(messages)[k] == id);
    } else {
        assert(ids_of(messages).last() == id);
    }
}

/// What a run appended in one commit is one block of the log, whatever was appended
/// since: a run whose triggers are the appended messages, with ids that the log did
/// not have, and whose range ends with them. So a repair publishes for it just what
/// the commit did, under the same keys.
pub proof fn lemma_append_is_repaired_as_it_was_published(
    events: Seq<EventDraft>,
    published: Seq<EventDraft>,
    thread_id: Seq<char>,
    run_id: Seq<char>,
    existing: Seq<Message>,
    appended: Seq<Message>,
    since: Seq<Message>,
    triggers: Seq<String>,
    blocks: Seq<MessageSeqRange>,
)
    requires
        0 < appended.len(),
        existing.len() + appended.len() <= u64::MAX,
        texts(triggers) == ids_of(appended),
        forall|i: int|
            0 <= i < existing.len() ==> match (#[trigger] existing[i]).id {
                Some(id) => !names(triggers, id@),
                None => true,
            },
        range_has_events(
            existing + appended,
            (existing.len() + 1) as u64,
            (existing.len() + appended.len()) as u64,
        ),
        are_blocks(
            blocks,
            own_marks(existing + appended + since, triggers),
            1,
            (existing.len() + appended.len()) as int,
        ),
        is_repair(events, thread_id, run_id, existing + appended + since, blocks),
        is_checkpoint(
            published,
            thread_id,
            run_id,
            existing + appended,
            (existing.len() + 1) as u64,
            (existing.len() + appended.len()) as u64,
        ),
    ensures
        blocks == seq![
            MessageSeqRange {
                from_seq: (existing.len() + 1) as u64,
                to_seq: (existing.len() + appended.len()) as u64,
            },
        ],
        events.len() == published.len(),
        forall|i: int|
            0 <= i < events.len() ==> (#[trigger] events[i]).idempotency_key@
                == published[i].idempotency_key@,
{
    let log = existing + appended;
    let messages = log + since;
    let marks = own_marks(messages, triggers);
    let first = existing.len() + 1;
    let last = existing.len() + appended.len();
    assert forall|seq: int| 1 <= seq <= last implies #[trigger] is_marked(marks, seq) == (seq
        >= first) by {
        assert(marks[seq - 1] == is_own(messages, triggers, seq));
        if seq < first {
            assert(messages[seq - 1] == existing[seq - 1]);
        } else {
            assert(has_event(log, seq));
            let i = seq - first;
            assert(messages[seq - 1] == appended[i]);
            assert(log[seq - 1] == appended[i]);
            lemma_ids_are_listed(appended, i);
            let id = appended[i].id->0@;
            let k = choose|k: int| 0 <= k < texts(triggers).len() && texts(triggers)[k] == id;
            assert(triggers[k]@ == id);
        }
    }
    assert(is_marked(marks, first as int));
    assert(in_blocks(blocks, first as int));
    let k = choose|k: int|
        0 <= k < blocks.len() && (#[trigger] blocks[k]).from_seq <= first <= blocks[k].to_seq;
    assert(in_blocks(blocks, blocks[k].from_seq as int));
    assert(is_marked(marks, blocks[k].from_seq as int));
    assert(blocks[k].from_seq == first);
    if blocks[k].to_seq < last {
        let next = blocks[k].to_seq + 1;
        assert(is_marked(marks, next));
        assert(in_blocks(blocks, next));
        let j = choose|j: int|
            0 <= j < blocks.len() && (#[trigger] blocks[j]).from_seq <= next <= blocks[j].to_seq;
        if j < k {
            assert(blocks[j].to_seq + 1 < blocks[k].from_seq);
        } else if k < j {
            assert(blocks[k].to_seq + 1 < blocks[j].from_seq);
        }
    }
    assert(blocks.len() == 1) by {
        if k > 0 {
            assert(blocks[0].to_seq + 1 < blocks[k].from_seq);
            assert(in_blocks(blocks, blocks[0].from_seq as int));
            assert(is_marked(marks, blocks[0].from_seq as int));
        }
        if k < blocks.len() - 1 {
            assert(blocks[k].to_seq + 1 < blocks[k + 1].from_seq);
        }
    }
    assert(blocks =~= seq![
        MessageSeqRange { from_seq: first as u64, to_seq: last as u64 },
    ]);
    assert(blocks.drop_last() =~= Seq::<MessageSeqRange>::empty());
    let before = events.len() - span(blocks.last()) - 1;
    assert(is_repair(events.take(before), thread_id, run_id, messages, blocks.drop_last()));
    assert(events.skip(before) =~= events);
    assert(has_ids_of(log, messages)) by {
        assert forall|i: int| 0 <= i < log.len() implies text_view((#[trigger] log[i]).id)
            == text_view(messages[i].id) by {
            assert(messages[i] == log[i]);
        }
    }
    lemma_checkpoints_have_the_same_keys(
        published,
        events,
        thread_id,
        run_id,
        log,
        messages,
        first as u64,
        last as u64,
    );
}

/// A repair of events: how it stood before each reply, and the replies.
pub open spec fn is_event_repair(
    has_publisher: bool,
    stages: Seq<EventRepair>,
    replies: Seq<EventRepairReply>,
) -> bool {
    &&& stages.len() == replies.len() + 1
    &&& stages[0].repaired == 0
    &&& stages[0].runs@.len() == 0
    &&& stages[0].step == (if has_publisher {
        EventRepairStep::ListRuns { offset: 0 }
    } else {
        EventRepairStep::Done { outcome: Ok(0) }
    })
    &&& forall|i: int|
        #![trigger replies[i]]
        0 <= i < replies.len() ==> event_repair_answers(stages[i], replies[i])
            && event_repair_follows(stages[i], replies[i], stages[i + 1])
}

/// Whether a step loads the messages of a thread.
pub open spec fn loads_thread(step: EventRepairStep, thread_id: Seq<char>) -> bool {
    match step {
        EventRepairStep::LoadMessages { thread_id: id, .. } => id@ == thread_id,
        EventRepairStep::LoadLeft { thread_id: id, .. } => id@ == thread_id,
        _ => false,
    }
}

/// Whether a thread had one log all through a repair.
pub open spec fn keeps_log(
    stages: Seq<EventRepair>,
    replies: Seq<EventRepairReply>,
    thread_id: Seq<char>,
    log: Seq<Message>,
) -> bool {
    forall|i: int|
        #![trigger replies[i]]
        0 <= i < replies.len() && loads_thread(stages[i].step, thread_id) ==> match replies[i] {
            EventRepairReply::Messages(Ok(found)) => loaded(found) == log,
            _ => true,
        }
}

/// The events that a step publishes.
pub open spec fn step_events(step: EventRepairStep) -> Seq<EventDraft> {
    match step {
        EventRepairStep::Publish { events, .. } => events@,
        EventRepairStep::PublishLeft { events, .. } => events@,
        _ => seq![],
    }
}

/// Whether a stage published the events of the marked messages in the range of a run.
pub open spec fn tells_at(
    stage: EventRepair,
    reply: EventRepairReply,
    run: RunRecord,
    log: Seq<Message>,
    marks: Seq<bool>,
) -> bool {
    &&& reply is Published
    &&& input_range(run) matches Some(range)
    &&& range_has_events(log, range.from_seq, range.to_seq)
    &&& repairs(step_events(stage.step), run, range, log, marks)
}

/// Whether a run on a thread, if it took messages, had the events of the marked ones
/// published before the stage `n`.
pub open spec fn is_told(
    stages: Seq<EventRepair>,
    replies: Seq<EventRepairReply>,
    n: int,
    run: RunRecord,
    thread_id: Seq<char>,
    log: Seq<Message>,
    marks: Seq<bool>,
) -> bool {
    input_range(run) is Some && run.input->0.thread_id@ == thread_id ==> exists|i: int|
        0 <= i < n && #[trigger] tells_at(stages[i], replies[i], run, log, marks)
}

/// Whether the first runs had the events of the messages that they name published
/// before the stage `n`.
pub open spec fn own_are_told(
    stages: Seq<EventRepair>,
    replies: Seq<EventRepairReply>,
    n: int,
    runs: Seq<RunRecord>,
    count: int,
    thread_id: Seq<char>,
    log: Seq<Message>,
) -> bool {
    forall|k: int|
        0 <= k < count ==> is_told(
            stages,
            replies,
            n,
            #[trigger] runs[k],
            thread_id,
            log,
            own_marks(log, runs[k].input->0.trigger_message_ids@),
        )
}

/// Whether the first runs had the events of the messages that are left to them published
/// before the stage `n`.
pub open spec fn left_are_told(
    stages: Seq<EventRepair>,
    replies: Seq<EventRepairReply>,
    n: int,
    runs: Seq<RunRecord>,
    count: int,
    thread_id: Seq<char>,
    log: Seq<Message>,
) -> bool {
    forall|k: int|
        0 <= k < count ==> is_told(
            stages,
            replies,
            n,
            #[trigger] runs[k],
            thread_id,
            log,
            left_marks(log, runs, thread_id, k),
        )
}

/// How many messages the ranges of runs span.
pub open spec fn spans(runs: Seq<RunRecord>) -> int
    decreases runs.len(),
{
    if runs.len() == 0 {
        0
    } else {
        spans(runs.drop_last()) + match input_range(runs.last()) {
            Some(range) => span(range),
            None => 0,
        }
    }
}

/// What holds of a repair before the stage `n`, for a thread with a log.
pub open spec fn repair_invariant(
    stages: Seq<EventRepair>,
    replies: Seq<EventRepairReply>,
    n: int,
    thread_id: Seq<char>,
    log: Seq<Message>,
) -> bool {
    let runs = stages[n].runs@;
    let total = stages[n].repaired;
    let here = |run: RunRecord| input_range(run) is Some && run.input->0.thread_id@ == thread_id;
    &&& own_are_told(stages, replies, n, runs, runs.len() as int, thread_id, log)
    &&& match stages[n].step {
        EventRepairStep::ListRuns { .. } => total == spans(runs),
        EventRepairStep::LoadMessages { page, at, range, thread_id: id, .. } => {
            &&& at < page.items@.len()
            &&& own_are_told(stages, replies, n, page.items@, at as int, thread_id, log)
            &&& input_range(page.items@[at as int]) == Some(range)
            &&& page.items@[at as int].input->0.thread_id == id
            &&& total == spans(runs) + spans(page.items@.take(at as int))
        },
        EventRepairStep::Publish { page, at, range, events, .. } => {
            let run = page.items@[at as int];
            &&& at < page.items@.len()
            &&& own_are_told(stages, replies, n, page.items@, at as int, thread_id, log)
            &&& input_range(run) == Some(range)
            &&& here(run) ==> range_has_events(log, range.from_seq, range.to_seq) && repairs(
                events@,
                run,
                range,
                log,
                own_marks(log, run.input->0.trigger_message_ids@),
            )
            &&& total == spans(runs) + spans(page.items@.take(at as int))
        },
        EventRepairStep::LoadLeft { at, range, thread_id: id } => {
            &&& at < runs.len()
            &&& left_are_told(stages, replies, n, runs, at as int, thread_id, log)
            &&& input_range(runs[at as int]) == Some(range)
            &&& runs[at as int].input->0.thread_id == id
            &&& total == spans(runs)
        },
        EventRepairStep::PublishLeft { at, events } => {
            let run = runs[at as int];
            &&& at < runs.len()
            &&& left_are_told(stages, replies, n, runs, at as int, thread_id, log)
            &&& input_range(run) matches Some(range) && (here(run) ==> range_has_events(
                log,
                range.from_seq,
                range.to_seq,
            ) && repairs(
                events@,
                run,
                range,
                log,
                left_marks(log, runs, thread_id, at as int),
            ))
            &&& total == spans(runs)
        },
        EventRepairStep::Done { outcome } => outcome matches Ok(count) ==> {
            &&& left_are_told(stages, replies, n, runs, runs.len() as int, thread_id, log)
            &&& count == spans(runs)
        },
    }
}

proof fn lemma_next_with_input(runs: Seq<RunRecord>, at: int)
    requires
        0 <= at <= runs.len(),
    ensures
        at <= next_with_input(runs, at) <= runs.len(),
        forall|k: int|
            at <= k < next_with_input(runs, at) ==> input_range(#[trigger] runs[k]) is None,
        next_with_input(runs, at) < runs.len() ==> input_range(
            runs[next_with_input(runs, at)],
        ) is Some,
        spans(runs.take(next_with_input(runs, at))) == spans(runs.take(at)),
    decreases runs.len() - at,
{
    if at < runs.len() && input_range(runs[at]) is None {
        lemma_next_with_input(runs, at + 1);
        assert(runs.take(at + 1).drop_last() =~= runs.take(at));
    }
}

proof fn lemma_spans_add_up(one: Seq<RunRecord>, other: Seq<RunRecord>)
    ensures
        spans(one + other) == spans(one) + spans(other),
    decreases other.len(),
{
    if other.len() == 0 {
        assert(one + other =~= one);
    } else {
        lemma_spans_add_up(one, other.drop_last());
        assert((one + other).drop_last() =~= one + other.drop_last());
    }
}

proof fn lemma_stays_told(
    stages: Seq<EventRepair>,
    replies: Seq<EventRepairReply>,
    n: int,
    run: RunRecord,
    thread_id: Seq<char>,
    log: Seq<Message>,
    marks: Seq<bool>,
)
    requires
        is_told(stages, replies, n, run, thread_id, log, marks),
    ensures
        is_told(stages, replies, n + 1, run, thread_id, log, marks),
{
    if input_range(run) is Some && run.input->0.thread_id@ == thread_id {
        let i = choose|i: int|
            0 <= i < n && #[trigger] tells_at(stages[i], replies[i], run, log, marks);
        assert(tells_at(stages[i], replies[i], run, log, marks));
    }
}

proof fn lemma_own_stay_told(
    stages: Seq<EventRepair>,
    replies: Seq<EventRepairReply>,
    n: int,
    runs: Seq<RunRecord>,
    count: int,
    thread_id: Seq<char>,
    log: Seq<Message>,
)
    requires
        own_are_told(stages, replies, n, runs, count, thread_id, log),
    ensures
        own_are_told(stages, replies, n + 1, runs, count, thread_id, log),
{
    assert forall|k: int| 0 <= k < count implies is_told(
        stages,
        replies,
        n + 1,
        #[trigger] runs[k],
        thread_id,
        log,
        own_marks(log, runs[k].input->0.trigger_message_ids@),
    ) by {
        let marks = own_marks(log, runs[k].input->0.trigger_message_ids@);
        lemma_stays_told(stages, replies, n, runs[k], thread_id, log, marks);
    }
}

proof fn lemma_left_stay_told(
    stages: Seq<EventRepair>,
    replies: Seq<EventRepairReply>,
    n: int,
    runs: Seq<RunRecord>,
    count: int,
    thread_id: Seq<char>,
    log: Seq<Message>,
)
    requires
        left_are_told(stages, replies, n, runs, count, thread_id, log),
    ensures
        left_are_told(stages, replies, n + 1, runs, count, thread_id, log),
{
    assert forall|k: int| 0 <= k < count implies is_told(
        stages,
        replies,
        n + 1,
        #[trigger] runs[k],
        thread_id,
        log,
        left_marks(log, runs, thread_id, k),
    ) by {
        let marks = left_marks(log, runs, thread_id, k);
        lemma_stays_told(stages, replies, n, runs[k], thread_id, log, marks);
    }
}

/// The step to the next run of a page, or behind the page, keeps what was told.
proof fn lemma_at_input_keeps_told(
    stages: Seq<EventRepair>,
    replies: Seq<EventRepairReply>,
    n: int,
    runs: Vec<RunRecord>,
    offset: usize,
    page: RunPage,
    at: int,
    thread_id: Seq<char>,
    log: Seq<Message>,
)
    requires
        0 <= at <= page.items@.len(),
        is_at_input(runs, offset, page, at, stages[n]),
        own_are_told(stages, replies, n, runs@, runs@.len() as int, thread_id, log),
        own_are_told(stages, replies, n, page.items@, at, thread_id, log),
        stages[n].repaired == spans(runs@) + spans(page.items@.take(at)),
    ensures
        repair_invariant(stages, replies, n, thread_id, log),
{
    let items = page.items@;
    let next = next_with_input(items, at);
    lemma_next_with_input(items, at);
    assert(page.items.len() == items.len());
    assert(own_are_told(stages, replies, n, items, next, thread_id, log));
    if next >= items.len() {
        let after = stages[n].runs@;
        assert(items.take(next) =~= items);
        lemma_spans_add_up(runs@, items);
        assert forall|k: int| 0 <= k < after.len() implies is_told(
            stages,
            replies,
            n,
            #[trigger] after[k],
            thread_id,
            log,
            own_marks(log, after[k].input->0.trigger_message_ids@),
        ) by {
            if k < runs@.len() {
                assert(after[k] == runs@[k]);
            } else {
                assert(after[k] == items[k - runs@.len()]);
            }
        }
        if !page.has_more {
            lemma_at_left_keeps_told(stages, replies, n, 0, thread_id, log);
        }
    }
}

/// The step to the next run, for the messages that no run names, keeps what was told.
proof fn lemma_at_left_keeps_told(
    stages: Seq<EventRepair>,
    replies: Seq<EventRepairReply>,
    n: int,
    at: int,
    thread_id: Seq<char>,
    log: Seq<Message>,
)
    requires
        0 <= at <= stages[n].runs@.len(),
        stages[n].step == at_left(stages[n].runs@, stages[n].repaired, at),
        own_are_told(
            stages,
            replies,
            n,
            stages[n].runs@,
            stages[n].runs@.len() as int,
            thread_id,
            log,
        ),
        left_are_told(stages, replies, n, stages[n].runs@, at, thread_id, log),
        stages[n].repaired == spans(stages[n].runs@),
    ensures
        repair_invariant(stages, replies, n, thread_id, log),
{
    let runs = stages[n].runs@;
    let next = next_with_input(runs, at);
    lemma_next_with_input(runs, at);
    assert(stages[n].runs.len() == runs.len());
    assert(left_are_told(stages, replies, n, runs, next, thread_id, log));
}

/// A repair publishes, run by run, the events of the messages that each run names, and
/// then of those that are left to each run. What it counts are the ranges of the runs.
#[verifier::spinoff_prover]
pub proof fn lemma_repair_goes_through_all_runs(
    has_publisher: bool,
    stages: Seq<EventRepair>,
    replies: Seq<EventRepairReply>,
    n: int,
    thread_id: Seq<char>,
    log: Seq<Message>,
)
    requires
        is_event_repair(has_publisher, stages, replies),
        keeps_log(stages, replies, thread_id, log),
        0 <= n < stages.len(),
    ensures
        repair_invariant(stages, replies, n, thread_id, log),
    decreases n,
{
    if n > 0 {
        let m = n - 1;
        lemma_repair_goes_through_all_runs(has_publisher, stages, replies, m, thread_id, log);
        let before = stages[m];
        let reply = replies[m];
        let after = stages[n];
        let runs = before.runs@;
        assert(event_repair_answers(before, reply));
        assert(event_repair_follows(before, reply, after));
        lemma_own_stay_told(stages, replies, m, runs, runs.len() as int, thread_id, log);
        match (before.step, reply) {
            (EventRepairStep::ListRuns { offset }, EventRepairReply::Runs(Ok(page))) => {
                assert(page.items@.take(0).len() == 0);
                lemma_at_input_keeps_told(
                    stages,
                    replies,
                    n,
                    before.runs,
                    offset,
                    page,
                    0,
                    thread_id,
                    log,
                );
            },
            (EventRepairStep::LoadMessages { page, at, .. }, _) => {
                lemma_own_stay_told(
                    stages,
                    replies,
                    m,
                    page.items@,
                    at as int,
                    thread_id,
                    log,
                );
            },
            (
                EventRepairStep::Publish { offset, page, at, range, events },
                EventRepairReply::Published,
            ) => {
                let items = page.items@;
                let run = items[at as int];
                let marks = own_marks(log, run.input->0.trigger_message_ids@);
                lemma_own_stay_told(stages, replies, m, items, at as int, thread_id, log);
                if run.input->0.thread_id@ == thread_id {
                    assert(tells_at(stages[m], replies[m], run, log, marks));
                }
                assert(is_told(stages, replies, n, run, thread_id, log, marks));
                assert(items.take(at + 1).drop_last() =~= items.take(at as int));
                lemma_at_input_keeps_told(
                    stages,
                    replies,
                    n,
                    before.runs,
                    offset,
                    page,
                    at + 1,
                    thread_id,
                    log,
                );
            },
            (EventRepairStep::LoadLeft { at, .. }, _) => {
                lemma_left_stay_told(stages, replies, m, runs, at as int, thread_id, log);
            },
            (EventRepairStep::PublishLeft { at, events }, EventRepairReply::Published) => {
                let run = runs[at as int];
                let marks = left_marks(log, runs, thread_id, at as int);
                lemma_left_stay_told(stages, replies, m, runs, at as int, thread_id, log);
                if run.input->0.thread_id@ == thread_id {
                    assert(tells_at(stages[m], replies[m], run, log, marks));
                }
                assert(is_told(stages, replies, n, run, thread_id, log, marks));
                lemma_at_left_keeps_told(stages, replies, n, at + 1, thread_id, log);
            },
            _ => {},
        }
    }
}

/// Whether a stage published the event of a message under a run.
pub open spec fn publishes_event_of(
    stage: EventRepair,
    reply: EventRepairReply,
    thread_id: Seq<char>,
    run_id: Seq<char>,
    log: Seq<Message>,
    seq: u64,
) -> bool {
    reply is Published && tells_of(step_events(stage.step), thread_id, run_id, log, seq)
}

/// Whether a repair published the event of a message under one of the runs.
pub open spec fn is_told_of(
    stages: Seq<EventRepair>,
    replies: Seq<EventRepairReply>,
    thread_id: Seq<char>,
    log: Seq<Message>,
    seq: u64,
) -> bool {
    exists|i: int, j: int|
        0 <= i < replies.len() && 0 <= j < stages.last().runs@.len()
            && #[trigger] publishes_event_of(
            stages[i],
            replies[i],
            thread_id,
            stages.last().runs@[j].run_id@,
            log,
            seq,
        )
}

/// A repair that ends well misses no message that was taken in: each one in the range of
/// a run has had its event published, under a run that names it or else under the one
/// that it is left to, whether or not any record still names it. What is reported is how
/// many messages the ranges of all runs span.
pub proof fn lemma_repair_misses_no_input_message(
    has_publisher: bool,
    stages: Seq<EventRepair>,
    replies: Seq<EventRepairReply>,
    thread_id: Seq<char>,
    log: Seq<Message>,
    k: int,
    seq: u64,
)
    requires
        is_event_repair(has_publisher, stages, replies),
        keeps_log(stages, replies, thread_id, log),
        stages.last().step matches EventRepairStep::Done { outcome: Ok(_) },
        0 <= k < stages.last().runs@.len(),
        reaches(stages.last().runs@[k], thread_id, seq as int),
        is_input(log[seq - 1]),
    ensures
        is_told_of(stages, replies, thread_id, log, seq),
        stages.last().step matches EventRepairStep::Done { outcome: Ok(count) } && count == spans(
            stages.last().runs@,
        ),
{
    let n = stages.len() - 1;
    let runs = stages[n].runs@;
    lemma_repair_goes_through_all_runs(has_publisher, stages, replies, n, thread_id, log);
    let own = own_marks(log, runs[k].input->0.trigger_message_ids@);
    assert(is_told(stages, replies, n, runs[k], thread_id, log, own));
    assert(has_event(log, seq as int));
    lemma_every_input_message_is_marked(log, runs, thread_id, seq as int);
    if is_named(runs, thread_id, log, seq as int) {
        let j = choose|j: int|
            0 <= j < runs.len() && #[trigger] claims(runs[j], thread_id, log, seq as int);
        let marks = own_marks(log, runs[j].input->0.trigger_message_ids@);
        assert(is_told(stages, replies, n, runs[j], thread_id, log, marks));
        lemma_told_message(stages, replies, n, runs, j, thread_id, log, marks, seq);
    } else {
        let j = choose|j: int| #[trigger] is_left(log, runs, thread_id, j, seq as int);
        let marks = left_marks(log, runs, thread_id, j);
        assert(is_told(stages, replies, n, runs[j], thread_id, log, marks));
        lemma_told_message(stages, replies, n, runs, j, thread_id, log, marks, seq);
    }
}

proof fn lemma_told_message(
    stages: Seq<EventRepair>,
    replies: Seq<EventRepairReply>,
    n: int,
    runs: Seq<RunRecord>,
    j: int,
    thread_id: Seq<char>,
    log: Seq<Message>,
    marks: Seq<bool>,
    seq: u64,
)
    requires
        n == replies.len(),
        runs == stages.last().runs@,
        0 <= j < runs.len(),
        is_told(stages, replies, n, runs[j], thread_id, log, marks),
        reaches(runs[j], thread_id, seq as int),
        is_marked(marks, seq as int),
    ensures
        is_told_of(stages, replies, thread_id, log, seq),
{
    let run = runs[j];
    let range = input_range(run)->0;
    let i = choose|i: int|
        0 <= i < n && #[trigger] tells_at(stages[i], replies[i], run, log, marks);
    let events = step_events(stages[i].step);
    let blocks = choose|blocks: Seq<MessageSeqRange>| #[trigger]
        are_blocks(blocks, marks, range.from_seq as int, range.to_seq as int) && is_repair(
            events,
            thread_id,
            run.run_id@,
            log,
            blocks,
        );
    lemma_repair_covers_what_is_marked(
        events,
        thread_id,
        run.run_id@,
        log,
        marks,
        blocks,
        range.from_seq,
        range.to_seq,
        seq,
    );
    assert(publishes_event_of(stages[i], replies[i], thread_id, runs[j].run_id@, log, seq));
}

/// A message is taken in by a run where a user or the system said it, and given out where
/// an assistant or a tool did.
pub proof fn lemma_input_is_said_to_the_run(message: Message)
    ensures
        is_input(message) <==> message.role == Role::User || message.role == Role::System,
        !is_input(message) <==> message.role == Role::Assistant || message.role == Role::Tool,
{
}

/// The input of a run holds a message exactly where it is on the message's thread and its
/// range spans the message's number; and the run names the message exactly where the
/// message has one of the ids that triggered the run.
pub proof fn lemma_run_holds_what_its_range_spans(
    run: RunRecord,
    thread_id: Seq<char>,
    messages: Seq<Message>,
    seq: int,
)
    ensures
        reaches(run, thread_id, seq) <==> run.input is Some && run.input->0.thread_id@ == thread_id
            && run.input->0.range is Some && run.input->0.range->0.from_seq <= seq
            <= run.input->0.range->0.to_seq,
        claims(run, thread_id, messages, seq) <==> reaches(run, thread_id, seq) && 1 <= seq
            <= messages.len() && messages[seq - 1].id is Some && names(
            run.input->0.trigger_message_ids@,
            messages[seq - 1].id->0@,
        ),
{
}

/// Of the runs whose ranges hold a message, the one whose range ends first has it, and of
/// two that end together the one that was listed first.
pub proof fn lemma_earliest_range_has_the_message(
    runs: Seq<RunRecord>,
    k: int,
    j: int,
    one: MessageSeqRange,
    other: MessageSeqRange,
)
    requires
        input_range(runs[k]) == Some(one),
        input_range(runs[j]) == Some(other),
    ensures
        one.to_seq < other.to_seq ==> ends_first(runs, k, j) && !ends_first(runs, j, k),
        one.to_seq == other.to_seq && k < j ==> ends_first(runs, k, j) && !ends_first(runs, j, k),
        span(one) == (if one.from_seq <= one.to_seq {
            one.to_seq - one.from_seq + 1
        } else {
            0
        }),
{
}

/// A message that is left to a run was said to it, has an id, and is named by none of the
/// runs; and the range of that run holds it.
pub proof fn lemma_only_unnamed_input_is_left(
    messages: Seq<Message>,
    runs: Seq<RunRecord>,
    thread_id: Seq<char>,
    k: int,
    seq: int,
    j: int,
)
    requires
        is_left(messages, runs, thread_id, k, seq),
    ensures
        1 <= seq <= messages.len(),
        messages[seq - 1].role == Role::User || messages[seq - 1].role == Role::System,
        messages[seq - 1].id is Some,
        0 <= k < runs.len(),
        runs[k].input is Some && runs[k].input->0.thread_id@ == thread_id,
        runs[k].input->0.range matches Some(range) && range.from_seq <= seq <= range.to_seq,
        0 <= j < runs.len() && (runs[j].input matches Some(input) && input.thread_id@ == thread_id
            && (input.range matches Some(range) && range.from_seq <= seq <= range.to_seq))
            ==> !names(runs[j].input->0.trigger_message_ids@, messages[seq - 1].id->0@),
{
    if 0 <= j < runs.len() {
        assert(!claims(runs[j], thread_id, messages, seq));
    }
}

} // verus!
