//! Claiming the next dispatch of a thread, delivery signals of the backend, and
//! the renewal of leases.

use vstd::prelude::*;

use crate::dispatch::{RunDispatch, RunDispatchStatus};
use crate::error::{Fault, StorageError};
use crate::mailbox::config::MailboxConfig;
use crate::mailbox::helpers::{
    backed_off, dispatch_signal_blocked_nack_delay, redelivery_exponent,
};
use crate::mailbox::workers::ClaimStart;

verus! {

/// What came of an attempt to take up the next dispatch of a thread.
#[derive(Clone, Copy, Debug, PartialEq, Eq, Structural)]
pub enum DispatchAttempt {
    Claimed,
    Busy,
    NoEligible,
    TransientError,
}

impl DispatchAttempt {
    /// Whether a dispatch is being executed.
    pub fn started_execution(&self) -> (r: bool)
        ensures
            r == (*self == DispatchAttempt::Claimed),
    {
        match self {
            DispatchAttempt::Claimed => true,
            _ => false,
        }
    }
}

/// The operation that is due in taking up the next dispatch of a thread.
#[derive(Debug, PartialEq)]
pub enum ClaimStep {
    /// Claim one dispatch of the thread from the store.
    Claim,
    /// Take the claim of the worker back.
    Revert { attempt: DispatchAttempt },
    /// Start the execution of the dispatch.
    Start { dispatch: RunDispatch, claim_token: String },
    /// The attempt is over.
    Done { attempt: DispatchAttempt },
}

/// The reply to the operation of a step.
#[derive(Debug, PartialEq)]
pub enum ClaimReply {
    Claimed(Result<Vec<RunDispatch>, StorageError>),
    Performed,
}

/// Whether a reply is one that the operation of a step gives.
pub open spec fn claim_answers(step: ClaimStep, reply: ClaimReply) -> bool {
    match step {
        ClaimStep::Claim => reply is Claimed,
        ClaimStep::Revert { .. } => reply is Performed,
        ClaimStep::Start { .. } => reply is Performed,
        ClaimStep::Done { .. } => false,
    }
}

/// The claim token of a dispatch, or an empty one.
pub open spec fn token_of(dispatch: RunDispatch) -> Seq<char> {
    match dispatch.claim_token {
        Some(token) => token@,
        None => Seq::empty(),
    }
}

/// Whether `after` is a step that a reply may lead to.
pub open spec fn claim_follows(step: ClaimStep, reply: ClaimReply, after: ClaimStep) -> bool {
    match (step, reply) {
        (ClaimStep::Claim, ClaimReply::Claimed(result)) => match result {
            Err(_) => after == (ClaimStep::Revert { attempt: DispatchAttempt::TransientError }),
            Ok(claimed) => if claimed@.len() == 0 {
                after == (ClaimStep::Revert { attempt: DispatchAttempt::NoEligible })
            } else {
                after matches ClaimStep::Start { dispatch, claim_token } && dispatch == claimed@[0]
                    && claim_token@ == token_of(dispatch)
            },
        },
        (ClaimStep::Revert { attempt }, _) => after == (ClaimStep::Done { attempt }),
        (ClaimStep::Start { .. }, _) => after == (ClaimStep::Done {
            attempt: DispatchAttempt::Claimed,
        }),
        _ => false,
    }
}

/// The first step of an attempt, by how the worker of the thread took it up.
pub fn try_dispatch_next(start: ClaimStart) -> (r: ClaimStep)
    ensures
        r == (match start {
            ClaimStart::NoWorker => ClaimStep::Done { attempt: DispatchAttempt::NoEligible },
            ClaimStart::Busy => ClaimStep::Done { attempt: DispatchAttempt::Busy },
            ClaimStart::Claiming => ClaimStep::Claim,
        }),
{
    match start {
        ClaimStart::NoWorker => ClaimStep::Done { attempt: DispatchAttempt::NoEligible },
        ClaimStart::Busy => ClaimStep::Done { attempt: DispatchAttempt::Busy },
        ClaimStart::Claiming => ClaimStep::Claim,
    }
}

/// Whether a reply is one that the operation of a step gives.
pub fn claim_expects(step: &ClaimStep, reply: &ClaimReply) -> (r: bool)
    ensures
        r == claim_answers(*step, *reply),
{
    match (step, reply) {
        (ClaimStep::Claim, ClaimReply::Claimed(_)) => true,
        (ClaimStep::Revert { .. }, ClaimReply::Performed) => true,
        (ClaimStep::Start { .. }, ClaimReply::Performed) => true,
        _ => false,
    }
}

/// The step that a reply leads to.
pub fn dispatch_next_claim(step: ClaimStep, reply: ClaimReply) -> (r: ClaimStep)
    requires
        claim_answers(step, reply),
    ensures
        claim_follows(step, reply, r),
{
    match (step, reply) {
        (ClaimStep::Claim, ClaimReply::Claimed(result)) => match result {
            Err(_) => ClaimStep::Revert { attempt: DispatchAttempt::TransientError },
            Ok(claimed) => {
                if claimed.len() == 0 {
                    return ClaimStep::Revert { attempt: DispatchAttempt::NoEligible };
                }
                let mut batch = claimed;
                let dispatch = batch.remove(0);
                let claim_token = match &dispatch.claim_token {
                    Some(token) => token.clone(),
                    None => {
                        let empty = String::new();
                        assert(empty@ =~= Seq::<char>::empty());
                        empty
                    },
                };
                ClaimStep::Start { dispatch, claim_token }
            },
        },
        (ClaimStep::Revert { attempt }, _) => ClaimStep::Done { attempt },
        (ClaimStep::Start { .. }, _) => ClaimStep::Done { attempt: DispatchAttempt::Claimed },
        (step, _) => step,
    }
}

/// A worker that began to claim is given back before the attempt ends, unless its
/// dispatch is being executed; and only then does the attempt report a claim.
pub proof fn lemma_claiming_worker_is_given_back(
    first: ClaimReply,
    second: ClaimReply,
    middle: ClaimStep,
    last: ClaimStep,
)
    requires
        claim_answers(ClaimStep::Claim, first),
        claim_follows(ClaimStep::Claim, first, middle),
        claim_answers(middle, second),
        claim_follows(middle, second, last),
    ensures
        middle is Revert || middle is Start,
        last matches ClaimStep::Done { attempt } && (attempt == DispatchAttempt::Claimed)
            == middle is Start,
{
}

/// The label of a claim from the queue of a thread in metrics.
pub fn claim_label(result: &Result<Vec<RunDispatch>, StorageError>) -> (r: &'static str)
    ensures
        r == (match *result {
            Ok(claimed) => if claimed@.len() == 0 {
                "empty"
            } else {
                "ok"
            },
            Err(_) => "error",
        }),
{
    match result {
        Ok(claimed) => if claimed.len() == 0 {
            "empty"
        } else {
            "ok"
        },
        Err(_) => "error",
    }
}

/// The label of a claim of one dispatch in metrics.
pub fn claim_dispatch_label(result: &Result<Option<RunDispatch>, StorageError>) -> (r: &'static str)
    ensures
        r == (match *result {
            Ok(Some(_)) => "ok",
            Ok(None) => "empty",
            Err(_) => "error",
        }),
{
    match result {
        Ok(Some(_)) => "ok",
        Ok(None) => "empty",
        Err(_) => "error",
    }
}

/// What a look at a dispatch says that is to be released.
#[derive(Debug, PartialEq)]
pub enum ReleasePoll {
    Released,
    TimedOut,
    PollAgain,
    Failed { fault: Fault },
}

/// What a look at a dispatch says that is to be released.
pub open spec fn release_poll(
    loaded: Result<Option<RunDispatch>, StorageError>,
    deadline_passed: bool,
) -> ReleasePoll {
    match loaded {
        Err(error) => ReleasePoll::Failed { fault: Fault::Store(error) },
        Ok(Some(dispatch)) => if dispatch.status != RunDispatchStatus::Claimed {
            ReleasePoll::Released
        } else if deadline_passed {
            ReleasePoll::TimedOut
        } else {
            ReleasePoll::PollAgain
        },
        Ok(None) => ReleasePoll::Released,
    }
}

/// Judge a look at a dispatch that is to be released: one that is gone, or not
/// claimed, is released. The deadline is looked at last.
pub fn wait_for_dispatch_not_claimed(
    loaded: Result<Option<RunDispatch>, StorageError>,
    deadline_passed: bool,
) -> (r: ReleasePoll)
    ensures
        r == release_poll(loaded, deadline_passed),
        r == (match loaded {
            Err(error) => ReleasePoll::Failed { fault: Fault::Store(error) },
            Ok(Some(dispatch)) => if dispatch.status != RunDispatchStatus::Claimed {
                ReleasePoll::Released
            } else if deadline_passed {
                ReleasePoll::TimedOut
            } else {
                ReleasePoll::PollAgain
            },
            Ok(None) => ReleasePoll::Released,
        }),
{
    match loaded {
        Err(error) => ReleasePoll::Failed { fault: Fault::Store(error) },
        Ok(Some(dispatch)) => if dispatch.status != RunDispatchStatus::Claimed {
            ReleasePoll::Released
        } else if deadline_passed {
            ReleasePoll::TimedOut
        } else {
            ReleasePoll::PollAgain
        },
        Ok(None) => ReleasePoll::Released,
    }
}

/// How many signals are handled at once: at most as many as are configured, at
/// most as many as there are, and at least one.
pub fn concurrent_signal_handlers(configured: usize, entries: usize) -> (r: usize)
    ensures
        r >= 1,
        r == configured || r == entries || r == 1,
        configured >= 1 && entries >= 1 ==> r <= configured && r <= entries && (r == configured
            || r == entries),
        configured == 0 || entries == 0 ==> r == 1,
{
    let least: usize = if configured < entries {
        configured
    } else {
        entries
    };
    if least < 1 {
        1
    } else {
        least
    }
}

/// Whether a signal was delivered before.
pub fn is_redelivery(redelivery_attempts: Option<u64>) -> (r: bool)
    ensures
        r == (redelivery_attempts matches Some(n) && n > 1),
{
    match redelivery_attempts {
        Some(n) => n > 1,
        None => false,
    }
}

/// Whether the dispatch of a signal can still be taken up.
pub open spec fn is_still_available(dispatch: Option<RunDispatch>, now: u64) -> bool {
    dispatch matches Some(d) && d.status == RunDispatchStatus::Queued && d.available_at <= now
}

/// Whether the dispatch of a signal can still be taken up: it is queued, and due.
pub fn dispatch_signal_still_available(dispatch: &Option<RunDispatch>, now: u64) -> (r: bool)
    ensures
        r == is_still_available(*dispatch, now),
{
    match dispatch {
        Some(d) => d.status == RunDispatchStatus::Queued && d.available_at <= now,
        None => false,
    }
}

/// How often a signal was delivered, and the delays of a blocked one.
#[derive(Clone, Copy, Debug, PartialEq, Eq, Structural)]
pub struct SignalEntry {
    pub redelivery_attempts: Option<u64>,
    pub base_delay: u64,
    pub max_delay: u64,
}

/// The operation that is due in handling a signal.
#[derive(Clone, Copy, Debug, PartialEq, Eq, Structural)]
pub enum SignalStep {
    /// Let the worker of the thread take up its next dispatch.
    Dispatch,
    /// Load the dispatch of the signal.
    Verify,
    /// Return the signal, to be delivered again after the delay, if it has one.
    Nack { delay: Option<u64> },
    /// Acknowledge the signal.
    Ack,
    /// The signal is handled.
    Done,
}

/// The reply to the operation of a step. Times are in milliseconds.
#[derive(Debug, PartialEq)]
pub enum SignalReply {
    Attempted(DispatchAttempt),
    Loaded { result: Result<Option<RunDispatch>, StorageError>, now: u64 },
    Performed,
}

/// Whether a reply is one that the operation of a step gives.
pub open spec fn signal_answers(step: SignalStep, reply: SignalReply) -> bool {
    match step {
        SignalStep::Dispatch => reply is Attempted,
        SignalStep::Verify => reply is Loaded,
        SignalStep::Nack { .. } => reply is Performed,
        SignalStep::Ack => reply is Performed,
        SignalStep::Done => false,
    }
}

/// The delay with which a blocked signal is returned.
pub open spec fn blocked_delay(entry: SignalEntry) -> nat {
    backed_off(
        entry.base_delay as nat,
        redelivery_exponent(entry.redelivery_attempts),
        entry.max_delay as nat,
    )
}

/// The step that a reply leads to. A signal for which nothing could be taken up is
/// returned while its dispatch is still there to be taken up.
pub open spec fn next_signal_step(
    entry: SignalEntry,
    step: SignalStep,
    reply: SignalReply,
) -> SignalStep {
    match (step, reply) {
        (SignalStep::Dispatch, SignalReply::Attempted(attempt)) => match attempt {
            DispatchAttempt::TransientError => SignalStep::Nack { delay: None },
            DispatchAttempt::NoEligible => SignalStep::Verify,
            DispatchAttempt::Claimed => SignalStep::Ack,
            DispatchAttempt::Busy => SignalStep::Ack,
        },
        (SignalStep::Verify, SignalReply::Loaded { result, now }) => match result {
            Ok(dispatch) => if is_still_available(dispatch, now) {
                SignalStep::Nack { delay: Some(blocked_delay(entry) as u64) }
            } else {
                SignalStep::Ack
            },
            Err(_) => SignalStep::Nack { delay: None },
        },
        (SignalStep::Nack { .. }, _) => SignalStep::Done,
        (SignalStep::Ack, _) => SignalStep::Done,
        _ => step,
    }
}

/// Whether a reply is one that the operation of a step gives.
pub fn signal_expects(step: SignalStep, reply: &SignalReply) -> (r: bool)
    ensures
        r == signal_answers(step, *reply),
{
    match (step, reply) {
        (SignalStep::Dispatch, SignalReply::Attempted(_)) => true,
        (SignalStep::Verify, SignalReply::Loaded { .. }) => true,
        (SignalStep::Nack { .. }, SignalReply::Performed) => true,
        (SignalStep::Ack, SignalReply::Performed) => true,
        _ => false,
    }
}

/// The step that a reply leads to in handling a signal.
pub fn handle_dispatch_signal_entry(entry: SignalEntry, step: SignalStep, reply: SignalReply) -> (r:
    SignalStep)
    requires
        signal_answers(step, reply),
    ensures
        r == next_signal_step(entry, step, reply),
{
    match (step, reply) {
        (SignalStep::Dispatch, SignalReply::Attempted(attempt)) => match attempt {
            DispatchAttempt::TransientError => SignalStep::Nack { delay: None },
            DispatchAttempt::NoEligible => SignalStep::Verify,
            DispatchAttempt::Claimed => SignalStep::Ack,
            DispatchAttempt::Busy => SignalStep::Ack,
        },
        (SignalStep::Verify, SignalReply::Loaded { result, now }) => match result {
            Ok(dispatch) => if dispatch_signal_still_available(&dispatch, now) {
                let delay: u64 = dispatch_signal_blocked_nack_delay(
                    entry.redelivery_attempts,
                    entry.base_delay,
                    entry.max_delay,
                );
                SignalStep::Nack { delay: Some(delay) }
            } else {
                SignalStep::Ack
            },
            Err(_) => SignalStep::Nack { delay: None },
        },
        (SignalStep::Nack { .. }, _) => SignalStep::Done,
        (SignalStep::Ack, _) => SignalStep::Done,
        (step, _) => step,
    }
}

/// No signal is lost: one is acknowledged only where its thread is being worked on,
/// so that the end of that run takes up what is queued, or where its dispatch is no
/// longer there to be taken up.
pub proof fn lemma_signals_are_not_lost(entry: SignalEntry, step: SignalStep, reply: SignalReply)
    requires
        signal_answers(step, reply),
        next_signal_step(entry, step, reply) is Ack,
    ensures
        match reply {
            SignalReply::Attempted(attempt) => attempt == DispatchAttempt::Claimed || attempt
                == DispatchAttempt::Busy,
            SignalReply::Loaded { result, now } => result matches Ok(dispatch)
                && !is_still_available(dispatch, now),
            SignalReply::Performed => false,
        },
{
}

/// How long a lease is renewed for.
pub open spec fn lease_of(config: MailboxConfig, suspended: bool) -> u64 {
    if suspended {
        config.suspended_lease_ms
    } else {
        config.lease_ms
    }
}

/// How long a lease is renewed for: longer while the run waits for a human.
pub fn effective_lease(config: &MailboxConfig, suspended: bool) -> (r: u64)
    ensures
        r == lease_of(*config, suspended),
        r == (if suspended {
            config.suspended_lease_ms
        } else {
            config.lease_ms
        }),
{
    if suspended {
        config.suspended_lease_ms
    } else {
        config.lease_ms
    }
}

/// What follows a renewal of a lease.
#[derive(Clone, Copy, Debug, PartialEq, Eq, Structural)]
pub enum LeaseRenewal {
    /// The lease is held: go on.
    Held,
    /// Another process holds the dispatch: cancel the run, and stop.
    CancelRun,
    /// The store failed: stop.
    Stop,
}

/// What follows a renewal of a lease.
pub open spec fn after_renewal(result: Result<bool, StorageError>) -> LeaseRenewal {
    match result {
        Ok(held) => if held {
            LeaseRenewal::Held
        } else {
            LeaseRenewal::CancelRun
        },
        Err(_) => LeaseRenewal::Stop,
    }
}

/// Judge a renewal of a lease, with its label in metrics.
pub fn lease_renewal(result: &Result<bool, StorageError>) -> (r: (LeaseRenewal, &'static str))
    ensures
        r.0 == after_renewal(*result),
        r == (match *result {
            Ok(held) => if held {
                (LeaseRenewal::Held, "ok")
            } else {
                (LeaseRenewal::CancelRun, "lost")
            },
            Err(_) => (LeaseRenewal::Stop, "error"),
        }),
{
    match result {
        Ok(held) => if *held {
            (LeaseRenewal::Held, "ok")
        } else {
            (LeaseRenewal::CancelRun, "lost")
        },
        Err(_) => (LeaseRenewal::Stop, "error"),
    }
}

/// An event of a run, as far as its suspension is concerned.
#[derive(Clone, Copy, Debug, PartialEq, Eq, Structural)]
pub enum SuspensionEvent {
    ToolCallDone { suspended: bool },
    ToolCallResumed,
    Other,
}

/// Whether a run is suspended after an event.
pub open spec fn is_suspended_after(suspended: bool, event: SuspensionEvent) -> bool {
    match event {
        SuspensionEvent::ToolCallDone { suspended: call } => suspended || call,
        SuspensionEvent::ToolCallResumed => false,
        SuspensionEvent::Other => suspended,
    }
}

/// Whether a run is suspended after an event: a suspended tool call suspends it,
/// and a resumed one lets it go on.
pub fn suspended_after(suspended: bool, event: SuspensionEvent) -> (r: bool)
    ensures
        r == is_suspended_after(suspended, event),
        r == (match event {
            SuspensionEvent::ToolCallDone { suspended: call } => suspended || call,
            SuspensionEvent::ToolCallResumed => false,
            SuspensionEvent::Other => suspended,
        }),
{
    match event {
        SuspensionEvent::ToolCallDone { suspended: call } => suspended || call,
        SuspensionEvent::ToolCallResumed => false,
        SuspensionEvent::Other => suspended,
    }
}

/// A dispatch counts as released exactly where the store no longer shows it as claimed.
/// While it is claimed it is looked at again until the deadline, and a wait that is over
/// by then is not a release.
pub proof fn lemma_release_is_seen_in_the_store(
    loaded: Result<Option<RunDispatch>, StorageError>,
    deadline_passed: bool,
)
    ensures
        loaded matches Err(error) ==> release_poll(loaded, deadline_passed) == (
        ReleasePoll::Failed { fault: Fault::Store(error) }),
        loaded == Ok::<Option<RunDispatch>, StorageError>(None) ==> release_poll(
            loaded,
            deadline_passed,
        ) is Released,
        loaded matches Ok(Some(dispatch)) ==> {
            let claimed = dispatch.status == RunDispatchStatus::Claimed;
            let poll = release_poll(loaded, deadline_passed);
            &&& poll is Released <==> !claimed
            &&& poll is TimedOut <==> claimed && deadline_passed
            &&& poll is PollAgain <==> claimed && !deadline_passed
        },
{
}

/// A run goes on exactly while its lease is held. One whose lease another process holds is
/// cancelled; a store that fails is no reason to cancel it.
pub proof fn lemma_lost_lease_cancels_the_run(result: Result<bool, StorageError>)
    ensures
        after_renewal(result) == LeaseRenewal::Held <==> result == Ok::<bool, StorageError>(true),
        after_renewal(result) == LeaseRenewal::CancelRun <==> result == Ok::<bool, StorageError>(
            false,
        ),
        after_renewal(result) == LeaseRenewal::Stop <==> result is Err,
{
}

/// A suspended run stays suspended until a tool call is resumed, and only a suspended tool
/// call suspends a run; its lease is the one for suspended runs while it is, and the
/// usual one otherwise.
pub proof fn lemma_suspension_lasts_until_a_resume(
    config: MailboxConfig,
    suspended: bool,
    event: SuspensionEvent,
)
    ensures
        event == SuspensionEvent::ToolCallResumed ==> !is_suspended_after(suspended, event),
        event == (SuspensionEvent::ToolCallDone { suspended: true }) ==> is_suspended_after(
            suspended,
            event,
        ),
        event == SuspensionEvent::Other || event == (SuspensionEvent::ToolCallDone {
            suspended: false,
        }) ==> is_suspended_after(suspended, event) == suspended,
        lease_of(config, true) == config.suspended_lease_ms,
        lease_of(config, false) == config.lease_ms,
{
}

/// The claim of the next dispatch of a thread: a store that fails, and a thread without a
/// dispatch to claim, give the worker back, and are told apart. A dispatch that was
/// claimed is started, the first where there are more, under the token of the claim.
pub proof fn lemma_claim_decides_on_the_start(reply: ClaimReply, after: ClaimStep, last: ClaimStep)
    requires
        claim_answers(ClaimStep::Claim, reply),
        claim_follows(ClaimStep::Claim, reply, after),
        claim_follows(after, ClaimReply::Performed, last),
    ensures
        reply matches ClaimReply::Claimed(result) && match result {
            Err(_) => after is Revert && last == (ClaimStep::Done {
                attempt: DispatchAttempt::TransientError,
            }),
            Ok(claimed) => if claimed@.len() == 0 {
                after is Revert && last == (ClaimStep::Done {
                    attempt: DispatchAttempt::NoEligible,
                })
            } else {
                &&& after matches ClaimStep::Start { dispatch, claim_token } && dispatch
                    == claimed@[0] && (dispatch.claim_token matches Some(token) ==> claim_token@
                    == token@) && (dispatch.claim_token is None ==> claim_token@.len() == 0)
                &&& last == (ClaimStep::Done { attempt: DispatchAttempt::Claimed })
            },
        },
{
}

/// The handling of a signal: the steps that were due and the replies to them.
pub open spec fn is_signal_handling(
    entry: SignalEntry,
    steps: Seq<SignalStep>,
    replies: Seq<SignalReply>,
) -> bool {
    &&& steps.len() == replies.len() + 1
    &&& steps[0] is Dispatch
    &&& forall|i: int|
        #![trigger replies[i]]
        0 <= i < replies.len() ==> signal_answers(steps[i], replies[i]) && steps[i + 1]
            == next_signal_step(entry, steps[i], replies[i])
}

/// A signal is acknowledged where its thread is being worked on. Where the claim failed it
/// is returned at once. Where nothing could be claimed its dispatch is looked at: while
/// that is queued and due the signal comes back after a delay, which is at most the
/// longest one; it is acknowledged where the dispatch is not, and returned at once where
/// that cannot be told. It is either acknowledged or returned, and once.
pub proof fn lemma_signal_is_settled_once(
    entry: SignalEntry,
    steps: Seq<SignalStep>,
    replies: Seq<SignalReply>,
)
    requires
        is_signal_handling(entry, steps, replies),
        steps.last() is Done,
    ensures
        replies.len() == 2 || replies.len() == 3,
        replies[0] matches SignalReply::Attempted(attempt) && match attempt {
            DispatchAttempt::Claimed => steps.len() == 3 && steps[1] is Ack,
            DispatchAttempt::Busy => steps.len() == 3 && steps[1] is Ack,
            DispatchAttempt::TransientError => steps.len() == 3 && steps[1] == (SignalStep::Nack {
                delay: None,
            }),
            DispatchAttempt::NoEligible => {
                &&& steps.len() == 4
                &&& steps[1] is Verify
                &&& replies[1] matches SignalReply::Loaded { result, now } && match result {
                    Err(_) => steps[2] == (SignalStep::Nack { delay: None }),
                    Ok(Some(dispatch)) => if dispatch.status == RunDispatchStatus::Queued
                        && dispatch.available_at <= now {
                        steps[2] matches SignalStep::Nack { delay: Some(delay) } && delay
                            <= entry.max_delay && delay == backed_off(
                            entry.base_delay as nat,
                            redelivery_exponent(entry.redelivery_attempts),
                            entry.max_delay as nat,
                        )
                    } else {
                        steps[2] is Ack
                    },
                    Ok(None) => steps[2] is Ack,
                }
            },
        },
{
    let n = replies.len();
    if n > 0 {
        assert(signal_answers(steps[0], replies[0]));
    }
    if n > 1 {
        assert(signal_answers(steps[1], replies[1]));
    }
    if n > 2 {
        assert(signal_answers(steps[2], replies[2]));
    }
    if n > 3 {
        assert(signal_answers(steps[3], replies[3]));
    }
}

/// A thread that has no worker or a busy one is not claimed for, and only a worker that
/// was claimed goes on to the store; only a claim that was made has started something.
pub proof fn lemma_only_a_free_worker_claims(start: ClaimStart, step: ClaimStep)
    requires
        call_ensures(try_dispatch_next, (start,), step),
    ensures
        step is Claim <==> start is Claiming,
        start is NoWorker ==> step == (ClaimStep::Done { attempt: DispatchAttempt::NoEligible }),
        start is Busy ==> step == (ClaimStep::Done { attempt: DispatchAttempt::Busy }),
{
}

/// An attempt has started an execution exactly where it claimed a dispatch.
pub proof fn lemma_only_a_claim_starts_an_execution(attempt: DispatchAttempt, started: bool)
    requires
        call_ensures(DispatchAttempt::started_execution, (&attempt,), started),
    ensures
        started <==> attempt == DispatchAttempt::Claimed,
        !started <==> attempt == DispatchAttempt::NoEligible || attempt == DispatchAttempt::Busy
            || attempt == DispatchAttempt::TransientError,
{
}

/// A signal counts as delivered again from its second delivery on, and never before it is
/// counted.
pub proof fn lemma_first_delivery_is_no_redelivery(attempts: u64, again: bool, uncounted: bool)
    requires
        call_ensures(is_redelivery, (Some(attempts),), again),
        call_ensures(is_redelivery, (None,), uncounted),
    ensures
        !uncounted,
        again <==> attempts >= 2,
{
}

/// As many signals are handled at once as were configured, but no more than there are,
/// and always at least one.
pub proof fn lemma_handlers_are_bounded(configured: usize, entries: usize, handlers: usize)
    requires
        call_ensures(concurrent_signal_handlers, (configured, entries), handlers),
    ensures
        handlers >= 1,
        configured >= 1 ==> handlers <= configured,
        entries >= 1 ==> handlers <= entries,
        1 <= configured <= entries ==> handlers == configured,
        1 <= entries <= configured ==> handlers == entries,
{
}

} // verus!
