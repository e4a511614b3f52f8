//! Checkpoint events that failed to publish after a commit, queued for a later sweep.
//!
//! The queue is bounded and gives up its oldest task first.

use std::collections::VecDeque;
use vstd::prelude::*;

use crate::error::StorageError;
use crate::mailbox::server_event_capture::{
    is_checkpoint, range_has_events, record_thread_message_checkpoint_events, EventDraft,
};
use crate::message::Message;

verus! {

/// A committed range of messages whose checkpoint events are to be published
/// again.
#[derive(Debug, PartialEq)]
pub struct CheckpointRepairTask {
    pub thread_id: String,
    pub run_id: String,
    pub first_seq: u64,
    pub last_seq: u64,
}

impl Clone for CheckpointRepairTask {
    fn clone(&self) -> (r: Self)
        ensures
            r == *self,
    {
        CheckpointRepairTask {
            thread_id: self.thread_id.clone(),
            run_id: self.run_id.clone(),
            first_seq: self.first_seq,
            last_seq: self.last_seq,
        }
    }
}

/// How many tasks the queue holds.
pub const CHECKPOINT_REPAIR_QUEUE_CAP: usize = 1024;

/// The queue of repair tasks, oldest first.
pub struct CheckpointRepairQueue {
    tasks: VecDeque<CheckpointRepairTask>,
}

impl View for CheckpointRepairQueue {
    type V = Seq<CheckpointRepairTask>;

    closed spec fn view(&self) -> Seq<CheckpointRepairTask> {
        self.tasks@
    }
}

/// The queue with a task at its end. A queue that is full gives up its first.
pub open spec fn with_task(
    queue: Seq<CheckpointRepairTask>,
    task: CheckpointRepairTask,
) -> Seq<CheckpointRepairTask> {
    if queue.len() >= CHECKPOINT_REPAIR_QUEUE_CAP {
        queue.skip(1).push(task)
    } else {
        queue.push(task)
    }
}

impl CheckpointRepairQueue {
    /// Whether the queue is within its bound.
    pub open spec fn wf(&self) -> bool {
        self@.len() <= CHECKPOINT_REPAIR_QUEUE_CAP
    }

    /// An empty queue.
    pub fn new() -> (r: Self)
        ensures
            r@.len() == 0,
            r.wf(),
    {
        CheckpointRepairQueue { tasks: VecDeque::new() }
    }

    /// Queue a task. Without a publisher there is nothing to repair, and nothing
    /// is queued. Returns the task that a full queue gave up.
    pub fn enqueue_checkpoint_repair(
        &mut self,
        has_publisher: bool,
        task: CheckpointRepairTask,
    ) -> (dropped: Option<CheckpointRepairTask>)
        requires
            old(self).wf(),
        ensures
            final(self).wf(),
            final(self)@ == (if has_publisher {
                with_task(old(self)@, task)
            } else {
                old(self)@
            }),
            dropped == (if has_publisher && old(self)@.len() == CHECKPOINT_REPAIR_QUEUE_CAP {
                Some(old(self)@[0])
            } else {
                None
            }),
    {
        if !has_publisher {
            return None;
        }
        let dropped = if self.tasks.len() >= CHECKPOINT_REPAIR_QUEUE_CAP {
            self.tasks.pop_front()
        } else {
            None
        };
        self.tasks.push_back(task);
        assert(self@ =~= with_task(old(self)@, task));
        dropped
    }

    /// Take every queued task, oldest first. Without a publisher nothing is taken.
    pub fn take_tasks(&mut self, has_publisher: bool) -> (r: Vec<CheckpointRepairTask>)
        requires
            old(self).wf(),
        ensures
            final(self).wf(),
            r@ == (if has_publisher {
                old(self)@
            } else {
                seq![]
            }),
            final(self)@ == (if has_publisher {
                seq![]
            } else {
                old(self)@
            }),
    {
        let mut out: Vec<CheckpointRepairTask> = Vec::new();
        if !has_publisher {
            return out;
        }
        let n: usize = self.tasks.len();
        let ghost all = self@;
        let mut i: usize = 0;
        assert(self@ =~= all.skip(0));
        assert(out@ =~= all.take(0));
        while i < n
            invariant
                i <= n,
                n == all.len(),
                n <= CHECKPOINT_REPAIR_QUEUE_CAP,
                self@ == all.skip(i as int),
                out@ == all.take(i as int),
            decreases n - i,
        {
            assert(self@[0] == all[i as int]);
            match self.tasks.pop_front() {
                Some(task) => {
                    out.push(task);
                },
                None => {},
            }
            assert(self@ =~= all.skip(i as int + 1));
            assert(out@ =~= all.take(i as int + 1));
            i = i + 1;
        }
        assert(all.take(n as int) =~= all);
        assert(self@ =~= seq![]);
        out
    }
}

/// Queueing tasks keeps the newest: whatever was queued, after one more the queue
/// ends with it, is no longer than its bound, and holds nothing that was not
/// queued.
pub proof fn lemma_queue_keeps_the_newest(
    queue: Seq<CheckpointRepairTask>,
    task: CheckpointRepairTask,
)
    requires
        queue.len() <= CHECKPOINT_REPAIR_QUEUE_CAP,
    ensures
        with_task(queue, task).len() <= CHECKPOINT_REPAIR_QUEUE_CAP,
        with_task(queue, task).last() == task,
        with_task(queue, task).len() >= queue.len(),
        forall|i: int|
            0 <= i < with_task(queue, task).len() - 1 ==> queue.contains(
                #[trigger] with_task(queue, task)[i],
            ),
        queue.len() < CHECKPOINT_REPAIR_QUEUE_CAP ==> with_task(queue, task) == queue.push(task),
{
    let after = with_task(queue, task);
    assert forall|i: int| 0 <= i < after.len() - 1 implies queue.contains(#[trigger] after[i]) by {
        if queue.len() >= CHECKPOINT_REPAIR_QUEUE_CAP {
            assert(after[i] == queue[i + 1]);
        } else {
            assert(after[i] == queue[i]);
        }
    }
}

/// The operation that is due in a drain of the queue.
#[derive(Debug, PartialEq)]
pub enum DrainStep {
    /// Load the messages of the thread of the task `at`.
    LoadMessages { at: usize },
    /// Publish the events of the task `at`.
    Publish { at: usize, events: Vec<EventDraft> },
    /// Queue the task `at` again.
    Requeue { at: usize },
    /// Every task was tried.
    Done,
}

/// The reply to the operation of a step.
#[derive(Debug, PartialEq)]
pub enum DrainReply {
    Messages(Result<Option<Vec<Message>>, StorageError>),
    Published { failed: bool },
    Performed,
}

/// A drain of the tasks that were taken from the queue.
#[derive(Debug, PartialEq)]
pub struct RepairDrain {
    pub tasks: Vec<CheckpointRepairTask>,
    pub step: DrainStep,
}

/// Whether a reply is one that the operation of the due step gives.
pub open spec fn drain_answers(drain: RepairDrain, reply: DrainReply) -> bool {
    match drain.step {
        DrainStep::LoadMessages { at } => reply is Messages && at < drain.tasks@.len(),
        DrainStep::Publish { at, .. } => reply is Published && at < drain.tasks@.len(),
        DrainStep::Requeue { at } => reply is Performed && at < drain.tasks@.len(),
        DrainStep::Done => false,
    }
}

/// The step at a task, or behind the last.
pub open spec fn at_task(tasks: Seq<CheckpointRepairTask>, at: int) -> DrainStep {
    if at < tasks.len() {
        DrainStep::LoadMessages { at: at as usize }
    } else {
        DrainStep::Done
    }
}

/// Whether `after` is the step that a reply leads to. A task whose messages are not
/// there, or whose events are not published, is queued again.
pub open spec fn drain_follows(before: RepairDrain, reply: DrainReply, after: DrainStep) -> bool {
    match (before.step, reply) {
        (DrainStep::LoadMessages { at }, DrainReply::Messages(result)) => {
            let task = before.tasks@[at as int];
            match result {
                Ok(Some(messages)) => if range_has_events(
                    messages@,
                    task.first_seq,
                    task.last_seq,
                ) {
                    after matches DrainStep::Publish { at: i, events } && i == at && is_checkpoint(
                        events@,
                        task.thread_id@,
                        task.run_id@,
                        messages@,
                        task.first_seq,
                        task.last_seq,
                    )
                } else {
                    after == (DrainStep::Requeue { at })
                },
                Ok(None) => after == (DrainStep::Requeue { at }),
                Err(_) => after == (DrainStep::Requeue { at }),
            }
        },
        (DrainStep::Publish { at, .. }, DrainReply::Published { failed }) => after == (if failed {
            DrainStep::Requeue { at }
        } else {
            at_task(before.tasks@, at + 1)
        }),
        (DrainStep::Requeue { at }, _) => after == at_task(before.tasks@, at + 1),
        _ => false,
    }
}

fn task_step(tasks: &Vec<CheckpointRepairTask>, at: usize) -> (r: DrainStep)
    ensures
        r == at_task(tasks@, at as int),
{
    if at < tasks.len() {
        DrainStep::LoadMessages { at }
    } else {
        DrainStep::Done
    }
}

impl RepairDrain {
    /// Begin to drain the tasks that were taken from the queue.
    pub fn drain_checkpoint_repair_queue(tasks: Vec<CheckpointRepairTask>) -> (r: RepairDrain)
        ensures
            r.tasks == tasks,
            r.step == at_task(tasks@, 0),
    {
        let step = task_step(&tasks, 0);
        RepairDrain { tasks, step }
    }

    /// Whether a reply is one that the operation of the due step gives.
    pub fn expects(&self, reply: &DrainReply) -> (r: bool)
        ensures
            r == drain_answers(*self, *reply),
    {
        match (&self.step, reply) {
            (DrainStep::LoadMessages { at }, DrainReply::Messages(_)) => *at < self.tasks.len(),
            (DrainStep::Publish { at, .. }, DrainReply::Published { .. }) => *at
                < self.tasks.len(),
            (DrainStep::Requeue { at }, DrainReply::Performed) => *at < self.tasks.len(),
            _ => false,
        }
    }

    /// Take the reply to the operation that was due.
    pub fn advance(self, reply: DrainReply) -> (r: RepairDrain)
        requires
            drain_answers(self, reply),
        ensures
            r.tasks == self.tasks,
            drain_follows(self, reply, r.step),
    {
        let tasks = self.tasks;
        let count: usize = tasks.len();
        let step = match (self.step, reply) {
            (DrainStep::LoadMessages { at }, DrainReply::Messages(result)) => match result {
                Ok(Some(messages)) => {
                    match record_thread_message_checkpoint_events(
                        true,
                        &tasks[at].thread_id,
                        &tasks[at].run_id,
                        &messages,
                        tasks[at].first_seq,
                        tasks[at].last_seq,
                    ) {
                        Ok(events) => DrainStep::Publish { at, events },
                        Err(_) => DrainStep::Requeue { at },
                    }
                },
                _ => DrainStep::Requeue { at },
            },
            (DrainStep::Publish { at, .. }, DrainReply::Published { failed }) => {
                assert(at < count);
                if failed {
                    DrainStep::Requeue { at }
                } else {
                    task_step(&tasks, at + 1)
                }
            },
            (DrainStep::Requeue { at }, _) => {
                assert(at < count);
                task_step(&tasks, at + 1)
            },
            (step, _) => step,
        };
        RepairDrain { tasks, step }
    }
}

/// The task that a step of a drain is about.
pub open spec fn task_at(step: DrainStep) -> Option<int> {
    match step {
        DrainStep::LoadMessages { at } => Some(at as int),
        DrainStep::Publish { at, .. } => Some(at as int),
        DrainStep::Requeue { at } => Some(at as int),
        DrainStep::Done => None,
    }
}

/// No task is lost in a drain: it goes on to the next task, or ends, only where the
/// events of this one were published or the task was queued again.
pub proof fn lemma_drain_loses_no_task(before: RepairDrain, reply: DrainReply, after: DrainStep)
    requires
        drain_answers(before, reply),
        drain_follows(before, reply, after),
        task_at(after) != task_at(before.step),
    ensures
        before.step is Requeue || (before.step is Publish && reply == (DrainReply::Published {
            failed: false,
        })),
        match task_at(after) {
            Some(at) => at == task_at(before.step)->0 + 1,
            None => task_at(before.step) == Some(before.tasks@.len() - 1),
        },
{
    let count: usize = before.tasks.len();
    assert(count == before.tasks@.len());
}

/// A queue of fewer than a thousand and twenty-four tasks takes one more behind them. A
/// full one gives up its oldest for it, and no other.
pub proof fn lemma_full_queue_gives_up_the_oldest(
    queue: Seq<CheckpointRepairTask>,
    task: CheckpointRepairTask,
)
    requires
        queue.len() <= 1024,
    ensures
        queue.len() < 1024 ==> with_task(queue, task).len() == queue.len() + 1 && forall|i: int|
            0 <= i < queue.len() ==> #[trigger] with_task(queue, task)[i] == queue[i],
        queue.len() == 1024 ==> with_task(queue, task).len() == 1024 && forall|i: int|
            0 <= i < 1023 ==> #[trigger] with_task(queue, task)[i] == queue[i + 1],
        with_task(queue, task).last() == task,
{
}

/// A drain: how it stood before each reply, and the replies.
pub open spec fn is_drain(drains: Seq<RepairDrain>, replies: Seq<DrainReply>) -> bool {
    &&& drains.len() == replies.len() + 1
    &&& drains[0].step == at_task(drains[0].tasks@, 0)
    &&& forall|i: int|
        #![trigger replies[i]]
        0 <= i < replies.len() ==> drain_answers(drains[i], replies[i]) && drain_follows(
            drains[i],
            replies[i],
            drains[i + 1].step,
        ) && drains[i + 1].tasks == drains[i].tasks
}

/// Whether a task was settled before the state `at` of a drain: its events were published,
/// or it was queued again.
pub open spec fn is_task_settled(
    drains: Seq<RepairDrain>,
    replies: Seq<DrainReply>,
    at: int,
    task: int,
) -> bool {
    exists|i: int|
        0 <= i < at && {
            ||| (#[trigger] drains[i]).step == (DrainStep::Requeue { at: task as usize })
            ||| (drains[i].step matches DrainStep::Publish { at: t, .. } && t == task && replies[i]
                == (DrainReply::Published { failed: false }))
        }
}

/// A drain that has come to its end has settled every task: the events of each were
/// published, or it was queued again.
pub proof fn lemma_drain_settles_every_task(
    drains: Seq<RepairDrain>,
    replies: Seq<DrainReply>,
    at: int,
    task: int,
)
    requires
        is_drain(drains, replies),
        0 <= at < drains.len(),
        0 <= task < drains[0].tasks@.len(),
        match task_at(drains[at].step) {
            Some(current) => task < current,
            None => true,
        },
    ensures
        is_task_settled(drains, replies, at, task),
        drains[at].tasks == drains[0].tasks,
    decreases at,
{
    lemma_drain_keeps_tasks(drains, replies, at);
    let count: usize = drains[0].tasks.len();
    assert(count == drains[0].tasks@.len());
    if at > 0 {
        lemma_drain_keeps_tasks(drains, replies, at - 1);
        let before = drains[at - 1];
        assert(drain_answers(before, replies[at - 1]));
        assert(drain_follows(before, replies[at - 1], drains[at].step));
        let current = task_at(before.step)->0;
        if task < current {
            lemma_drain_settles_every_task(drains, replies, at - 1, task);
            let i = choose|i: int|
                0 <= i < at - 1 && {
                    ||| (#[trigger] drains[i]).step == (DrainStep::Requeue { at: task as usize })
                    ||| (drains[i].step matches DrainStep::Publish { at: t, .. } && t == task
                        && replies[i] == (DrainReply::Published { failed: false }))
                };
            assert(0 <= i < at && (drains[i].step == (DrainStep::Requeue { at: task as usize }) || (
            drains[i].step matches DrainStep::Publish { at: t, .. } && t == task && replies[i] == (
            DrainReply::Published { failed: false }))));
        } else {
            if task_at(drains[at].step) != task_at(before.step) {
                lemma_drain_loses_no_task(before, replies[at - 1], drains[at].step);
            }
            assert(task == current);
            assert(drains[at - 1].step == before.step);
        }
    }
}

proof fn lemma_drain_keeps_tasks(drains: Seq<RepairDrain>, replies: Seq<DrainReply>, at: int)
    requires
        is_drain(drains, replies),
        0 <= at < drains.len(),
    ensures
        drains[at].tasks == drains[0].tasks,
    decreases at,
{
    if at > 0 {
        lemma_drain_keeps_tasks(drains, replies, at - 1);
        assert(drain_answers(drains[at - 1], replies[at - 1]));
    }
}

} // verus!
