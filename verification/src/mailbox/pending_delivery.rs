//! Pending messages: how a submit stages them, and how a boundary freezes the
//! ones that are due into the committed log together with the run record.

use vstd::prelude::*;

use crate::activation::{RunActivation, RunMode};
use crate::delivery::{
    DeliveryBoundary, DeliveryGranularity, DeliveryMode, PendingMessageRecord,
};
use crate::error::{Fault, StorageError};
use crate::message::{text_message, Message, MessageView, Role, Visibility};
use crate::text::contains;

verus! {

/// The mode in which a submit stages its messages for a boundary. Input that
/// continues a waiting run is meant for that run alone.
pub open spec fn dispatch_delivery_mode(boundary: DeliveryBoundary, run_id: String) -> DeliveryMode {
    if boundary == DeliveryBoundary::ResumeInput {
        DeliveryMode {
            boundary,
            granularity: DeliveryGranularity::Batch,
            barrier: false,
            target_run_id: Some(run_id),
            fallback_to_new_run: false,
        }
    } else {
        DeliveryMode {
            boundary,
            granularity: DeliveryGranularity::Batch,
            barrier: false,
            target_run_id: None,
            fallback_to_new_run: true,
        }
    }
}

/// The mode in which a submit stages its messages for a boundary.
pub fn delivery_mode_for_dispatch(boundary: DeliveryBoundary, run_id: &String) -> (r: DeliveryMode)
    ensures
        r == dispatch_delivery_mode(boundary, *run_id),
{
    if boundary == DeliveryBoundary::ResumeInput {
        DeliveryMode {
            boundary,
            granularity: DeliveryGranularity::Batch,
            barrier: false,
            target_run_id: Some(run_id.clone()),
            fallback_to_new_run: false,
        }
    } else {
        DeliveryMode {
            boundary,
            granularity: DeliveryGranularity::Batch,
            barrier: false,
            target_run_id: None,
            fallback_to_new_run: true,
        }
    }
}

/// The mode in which input for a run that is under way is staged: for that run,
/// and for no other.
pub open spec fn live_delivery_mode(boundary: DeliveryBoundary, run_id: String) -> DeliveryMode {
    DeliveryMode {
        boundary,
        granularity: DeliveryGranularity::Batch,
        barrier: false,
        target_run_id: Some(run_id),
        fallback_to_new_run: false,
    }
}

/// The mode in which input for a run that is under way is staged.
pub fn delivery_mode_for_live_run(boundary: DeliveryBoundary, run_id: &String) -> (r: DeliveryMode)
    ensures
        r == live_delivery_mode(boundary, *run_id),
{
    DeliveryMode {
        boundary,
        granularity: DeliveryGranularity::Batch,
        barrier: false,
        target_run_id: Some(run_id.clone()),
        fallback_to_new_run: false,
    }
}

/// The boundary through which the messages of a submit are consumed, where they
/// go through the pending partition at all. A wake carries no user input, and a
/// resume with decisions carries none that is fresh.
pub open spec fn staging_boundary(request: RunActivation) -> Option<DeliveryBoundary> {
    match request.trace.run_mode {
        RunMode::Foreground => Some(DeliveryBoundary::Interrupt),
        RunMode::Scheduled => Some(DeliveryBoundary::NewRun),
        RunMode::InternalWake => None,
        RunMode::Resume => if request.control.seeded_decisions@.len() == 0 {
            Some(DeliveryBoundary::ResumeInput)
        } else {
            None
        },
    }
}

/// The boundary through which a submit stages its messages: none where there is
/// no pending store, there are no messages, or the request carries no fresh user
/// input.
pub fn prepare_pending_messages_for_dispatch(
    has_pending_store: bool,
    request: &RunActivation,
    normalized_messages: &Vec<Message>,
) -> (r: Option<DeliveryBoundary>)
    ensures
        r == (if has_pending_store && normalized_messages@.len() > 0 {
            staging_boundary(*request)
        } else {
            None
        }),
{
    if !has_pending_store || normalized_messages.len() == 0 {
        return None;
    }
    match request.trace.run_mode {
        RunMode::Foreground => Some(DeliveryBoundary::Interrupt),
        RunMode::Scheduled => Some(DeliveryBoundary::NewRun),
        RunMode::InternalWake => None,
        RunMode::Resume => if request.control.seeded_decisions.len() == 0 {
            Some(DeliveryBoundary::ResumeInput)
        } else {
            None
        },
    }
}

/// Whether `record` stages a message at a position of a thread's queue. A staged
/// message is known by its own id.
pub open spec fn is_staged(
    record: PendingMessageRecord,
    thread_id: Seq<char>,
    position: int,
    message: MessageView,
    mode: DeliveryMode,
) -> bool {
    &&& record.pending_id@ == (match message.id {
        Some(id) => id,
        None => Seq::empty(),
    })
    &&& record.thread_id@ == thread_id
    &&& record.position == position
    &&& record.message@ == message
    &&& record.revision == 0
    &&& record.delivery_mode == mode
    &&& record.created_at is None
    &&& record.updated_at is None
}

fn staged(thread_id: &String, position: u64, message: &Message, mode: &DeliveryMode) -> (r:
    PendingMessageRecord)
    ensures
        is_staged(r, thread_id@, position as int, message@, *mode),
{
    PendingMessageRecord {
        pending_id: match &message.id {
            Some(id) => id.clone(),
            None => String::new(),
        },
        thread_id: thread_id.clone(),
        position,
        message: message.clone(),
        revision: 0,
        delivery_mode: mode.clone(),
        created_at: None,
        updated_at: None,
    }
}

/// The queue of a thread as it would be with the messages appended: the entries
/// that are there, and the messages behind them.
pub open spec fn is_queue_with(
    queue: Seq<PendingMessageRecord>,
    stored: Seq<PendingMessageRecord>,
    thread_id: Seq<char>,
    appended: Seq<Message>,
    mode: DeliveryMode,
) -> bool {
    &&& queue.len() == stored.len() + appended.len()
    &&& forall|i: int| 0 <= i < stored.len() ==> #[trigger] queue[i] == stored[i]
    &&& forall|i: int|
        stored.len() <= i < queue.len() ==> is_staged(
            #[trigger] queue[i],
            thread_id,
            i + 1,
            appended[i - stored.len()]@,
            mode,
        )
}

/// The queue of a thread as it would be with the messages appended.
pub fn simulate_append(
    stored: Vec<PendingMessageRecord>,
    thread_id: &String,
    appended: &Vec<Message>,
    mode: &DeliveryMode,
) -> (r: Vec<PendingMessageRecord>)
    requires
        stored@.len() + appended@.len() < u64::MAX,
    ensures
        is_queue_with(r@, stored@, thread_id@, appended@, *mode),
{
    let mut queue = stored;
    let mut i: usize = 0;
    while i < appended.len()
        invariant
            i <= appended@.len(),
            stored@.len() + appended@.len() < u64::MAX,
            is_queue_with(queue@, stored@, thread_id@, appended@.take(i as int), *mode),
        decreases appended@.len() - i,
    {
        let position: u64 = queue.len() as u64 + 1;
        let ghost before = queue@;
        queue.push(staged(thread_id, position, &appended[i], mode));
        proof {
            let longer = appended@.take(i as int + 1);
            assert forall|k: int| stored@.len() <= k < queue@.len() implies is_staged(
                #[trigger] queue@[k],
                thread_id@,
                k + 1,
                longer[k - stored@.len()]@,
                *mode,
            ) by {
                if k < before.len() {
                    assert(queue@[k] == before[k]);
                    assert(appended@.take(i as int)[k - stored@.len()] == longer[k
                        - stored@.len()]);
                }
            }
        }
        i = i + 1;
    }
    assert(appended@.take(i as int) =~= appended@);
    queue
}

/// The id under which the foreground message of a preflight is staged.
pub const PREFLIGHT_PENDING_ID: &'static str = "__preflight_foreground__";

/// Whether a queue is the stored one with an empty foreground message at its end.
pub open spec fn is_preflight_queue(
    queue: Seq<PendingMessageRecord>,
    stored: Seq<PendingMessageRecord>,
    thread_id: Seq<char>,
) -> bool {
    &&& queue.len() == stored.len() + 1
    &&& forall|i: int| 0 <= i < stored.len() ==> #[trigger] queue[i] == stored[i]
    &&& queue.last().pending_id@ == PREFLIGHT_PENDING_ID@
    &&& queue.last().thread_id@ == thread_id
    &&& queue.last().position == stored.len() + 1
    &&& text_message(Role::User, Seq::empty(), queue.last().message)
    &&& queue.last().message.visibility == Visibility::All
    &&& queue.last().revision == 0
    &&& queue.last().delivery_mode.boundary == DeliveryBoundary::Interrupt
    &&& queue.last().delivery_mode.granularity == DeliveryGranularity::Batch
    &&& !queue.last().delivery_mode.barrier
    &&& queue.last().delivery_mode.target_run_id is None
    &&& queue.last().delivery_mode.fallback_to_new_run
    &&& queue.last().created_at is None
    &&& queue.last().updated_at is None
}

/// The queue on which a foreground submit is tried before it has any effect.
/// There is nothing to try where there is no pending store or the queue is empty.
pub fn preflight_foreground_pending(
    thread_id: &String,
    pending: Option<Vec<PendingMessageRecord>>,
) -> (r: Option<Vec<PendingMessageRecord>>)
    requires
        pending matches Some(stored) ==> stored@.len() < u64::MAX,
    ensures
        (r is Some) == (pending matches Some(stored) && stored@.len() > 0),
        r matches Some(queue) ==> is_preflight_queue(queue@, pending->0@, thread_id@),
{
    match pending {
        None => None,
        Some(stored) => {
            if stored.len() == 0 {
                return None;
            }
            let position: u64 = stored.len() as u64 + 1;
            let mut queue = stored;
            let mode = DeliveryMode {
                boundary: DeliveryBoundary::Interrupt,
                granularity: DeliveryGranularity::Batch,
                barrier: false,
                target_run_id: None,
                fallback_to_new_run: true,
            };
            let empty = String::new();
            assert(empty@ =~= Seq::<char>::empty());
            queue.push(
                PendingMessageRecord {
                    pending_id: PREFLIGHT_PENDING_ID.to_owned(),
                    thread_id: thread_id.clone(),
                    position,
                    message: Message::user(empty),
                    revision: 0,
                    delivery_mode: mode,
                    created_at: None,
                    updated_at: None,
                },
            );
            Some(queue)
        },
    }
}

/// The entry that a preflight which selected nothing is blocked by: the first
/// barrier of the queue, or its first entry where it has none.
pub open spec fn blocking_entry(stored: Seq<PendingMessageRecord>, at: int) -> bool {
    ||| {
        &&& 0 <= at < stored.len()
        &&& stored[at].delivery_mode.barrier
        &&& forall|i: int| 0 <= i < at ==> !(#[trigger] stored[i]).delivery_mode.barrier
    }
    ||| {
        &&& at == 0
        &&& forall|i: int|
            0 <= i < stored.len() ==> !(#[trigger] stored[i]).delivery_mode.barrier
    }
}

/// Judge a preflight by how many entries of its queue were selected. A selection
/// of none means that an entry ahead blocks the foreground message.
pub fn preflight_verdict(queue: &Vec<PendingMessageRecord>, selected: usize) -> (r: Result<
    (),
    Fault,
>)
    requires
        queue@.len() > 1,
    ensures
        (r is Ok) == (selected > 0),
        r matches Err(fault) ==> exists|at: int|
            0 <= at < queue@.len() - 1 && #[trigger] blocking_entry(queue@.drop_last(), at) && fault
                == (Fault::DeliveryBlockedByBarrier {
                blocking_pending_id: queue@[at].pending_id,
            }),
{
    if selected > 0 {
        return Ok(());
    }
    let ghost stored = queue@.drop_last();
    let n: usize = queue.len() - 1;
    let mut i: usize = 0;
    while i < n
        invariant
            selected == 0,
            n == queue@.len() - 1,
            stored == queue@.drop_last(),
            i <= n,
            forall|k: int| 0 <= k < i ==> !(#[trigger] stored[k]).delivery_mode.barrier,
        decreases n - i,
    {
        if queue[i].delivery_mode.barrier {
            assert(stored[i as int] == queue@[i as int]);
            assert(blocking_entry(stored, i as int));
            return Err(
                Fault::DeliveryBlockedByBarrier {
                    blocking_pending_id: queue[i].pending_id.clone(),
                },
            );
        }
        assert(stored[i as int] == queue@[i as int]);
        i = i + 1;
    }
    assert(blocking_entry(stored, 0));
    Err(Fault::DeliveryBlockedByBarrier { blocking_pending_id: queue[0].pending_id.clone() })
}

/// Whether an error on retracting a staged message that was not delivered needs
/// no attention: the message is gone, or was consumed.
pub open spec fn cleanup_is_settled(error: StorageError) -> bool {
    match error {
        StorageError::NotFound(_) => true,
        StorageError::Validation(message) => crate::text::occurs_in("already consumed"@, message@),
        _ => false,
    }
}

/// Whether an error on retracting a staged message that was not delivered needs
/// no attention.
pub fn cleanup_appended_pending_message(error: &StorageError) -> (r: bool)
    ensures
        r == cleanup_is_settled(*error),
{
    match error {
        StorageError::NotFound(_) => true,
        StorageError::Validation(message) => contains(message.as_str(), "already consumed"),
        _ => false,
    }
}

/// Input that continues a waiting run is for that run alone, and is not taken up by a new
/// one; input for any other boundary is for whichever run takes it up. Input for a run
/// that is under way is for that run alone. None of it is a barrier, and all of it is
/// delivered together.
pub proof fn lemma_input_is_for_the_run_it_is_meant_for(boundary: DeliveryBoundary, run_id: String)
    ensures
        dispatch_delivery_mode(boundary, run_id).boundary == boundary,
        dispatch_delivery_mode(boundary, run_id).granularity == DeliveryGranularity::Batch,
        !dispatch_delivery_mode(boundary, run_id).barrier,
        boundary == DeliveryBoundary::ResumeInput ==> dispatch_delivery_mode(
            boundary,
            run_id,
        ).target_run_id == Some(run_id) && !dispatch_delivery_mode(
            boundary,
            run_id,
        ).fallback_to_new_run,
        boundary != DeliveryBoundary::ResumeInput ==> dispatch_delivery_mode(
            boundary,
            run_id,
        ).target_run_id is None && dispatch_delivery_mode(boundary, run_id).fallback_to_new_run,
        live_delivery_mode(boundary, run_id).boundary == boundary,
        live_delivery_mode(boundary, run_id).target_run_id == Some(run_id),
        !live_delivery_mode(boundary, run_id).fallback_to_new_run,
        !live_delivery_mode(boundary, run_id).barrier,
        live_delivery_mode(boundary, run_id).granularity == DeliveryGranularity::Batch,
{
}

/// The messages of a foreground run interrupt, those of a scheduled one begin a new run,
/// and those of a resume without decisions are its input. A wake and a resume with
/// decisions stage nothing.
pub proof fn lemma_mode_of_a_run_decides_on_its_boundary(request: RunActivation)
    ensures
        request.trace.run_mode == RunMode::Foreground <==> staging_boundary(request) == Some(
            DeliveryBoundary::Interrupt,
        ),
        request.trace.run_mode == RunMode::Scheduled <==> staging_boundary(request) == Some(
            DeliveryBoundary::NewRun,
        ),
        request.trace.run_mode == RunMode::Resume && request.control.seeded_decisions@.len() == 0
            <==> staging_boundary(request) == Some(DeliveryBoundary::ResumeInput),
        request.trace.run_mode == RunMode::InternalWake || (request.trace.run_mode
            == RunMode::Resume && request.control.seeded_decisions@.len() > 0)
            <==> staging_boundary(request) is None,
{
}

/// A message that could not be retracted needs attention unless it is gone or was
/// consumed.
pub proof fn lemma_only_settled_cleanups_are_passed_over(error: StorageError)
    ensures
        error is NotFound ==> cleanup_is_settled(error),
        error is AlreadyExists || error is VersionConflict || error is PendingSelectionConflict
            || error is Other ==> !cleanup_is_settled(error),
        error matches StorageError::Validation(message) ==> (cleanup_is_settled(error)
            <==> crate::text::occurs_in("already consumed"@, message@)),
{
}

/// What is staged is known by the id of its message and waits behind what is there, in
/// its order.
pub proof fn lemma_staged_messages_wait_in_order(
    queue: Seq<PendingMessageRecord>,
    stored: Seq<PendingMessageRecord>,
    thread_id: Seq<char>,
    appended: Seq<Message>,
    mode: DeliveryMode,
    i: int,
)
    requires
        is_queue_with(queue, stored, thread_id, appended, mode),
        0 <= i < appended.len(),
    ensures
        queue.len() == stored.len() + appended.len(),
        queue.take(stored.len() as int) == stored,
        queue[stored.len() + i].position == stored.len() + i + 1,
        queue[stored.len() + i].message@ == appended[i]@,
        queue[stored.len() + i].thread_id@ == thread_id,
        queue[stored.len() + i].delivery_mode == mode,
        appended[i].id is Some ==> queue[stored.len() + i].pending_id@ == appended[i].id->0@,
{
    assert(queue.take(stored.len() as int) =~= stored);
    assert(is_staged(
        queue[stored.len() + i],
        thread_id,
        stored.len() + i + 1,
        appended[i]@,
        mode,
    ));
}

} // verus!
