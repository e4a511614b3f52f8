//! Pieces that several operations of the mailbox share.

use vstd::arithmetic::power2::{lemma_pow2_pos, lemma_pow2_strictly_increases, lemma_pow2_unfold, pow2};
use vstd::prelude::*;

use crate::activation::{RunActivation, RunMode, RunOrigin, RunTrace};
use crate::dispatch::RunDispatch;
use crate::error::{Fault, MailboxError};
use crate::ids::{fresh_id, is_uuid, lemma_uuid_not_blank};
use crate::lists::reversed;
use crate::mailbox::config::MailboxConfig;
use crate::message::{texts, Message};
use crate::run::{
    copy_texts, whole_log_input, MessageSeqRange, RunInputSnapshot, RunMessageInput,
};
use crate::text::{blank, is_blank, lemma_trim_blank, trim, trimmed};

verus! {

/// The mode that a request runs in once the mailbox has looked at it. A mode
/// other than the foreground was chosen on purpose and stays.
pub open spec fn normalized_mode(request: RunActivation, background: bool) -> RunMode {
    if request.trace.run_mode != RunMode::Foreground {
        request.trace.run_mode
    } else if request.control.seeded_decisions@.len() > 0
        || crate::activation::resumed_run(request) is Some {
        RunMode::Resume
    } else if request.trace.origin == RunOrigin::Internal {
        RunMode::InternalWake
    } else if background {
        RunMode::Scheduled
    } else {
        RunMode::Foreground
    }
}

/// The request in the mode that [`normalized_mode`] says.
pub open spec fn with_normalized_mode(request: RunActivation, background: bool) -> RunActivation {
    RunActivation {
        trace: RunTrace { run_mode: normalized_mode(request, background), ..request.trace },
        ..request
    }
}

/// Settle the mode of a foreground request: a resume where it continues a run or
/// brings decisions, a wake where it comes from inside, else scheduled in the
/// background and unchanged in the foreground.
pub fn normalize_mailbox_run_mode(request: RunActivation, background: bool) -> (r: RunActivation)
    ensures
        r == with_normalized_mode(request, background),
{
    let mut r = request;
    if r.trace.run_mode != RunMode::Foreground {
        return r;
    }
    let mode = if r.control.seeded_decisions.len() > 0 || r.resumes() {
        RunMode::Resume
    } else if r.trace.origin == RunOrigin::Internal {
        RunMode::InternalWake
    } else if background {
        RunMode::Scheduled
    } else {
        RunMode::Foreground
    };
    r.trace.run_mode = mode;
    r
}

/// Normalizing a second time changes nothing.
pub proof fn lemma_normalized_mode_is_stable(request: RunActivation, background: bool, again: bool)
    requires
        normalized_mode(request, background) != RunMode::Foreground || !again,
    ensures
        with_normalized_mode(with_normalized_mode(request, background), again)
            == with_normalized_mode(request, background),
{
}

/// The thread that a submit goes to: the trimmed id, or `fresh` where that is
/// blank.
pub fn thread_or(thread_id: &str, fresh: String) -> (r: String)
    ensures
        r@ == (if is_blank(thread_id@) {
            fresh@
        } else {
            trim(thread_id@)
        }),
{
    if blank(thread_id) {
        fresh
    } else {
        trimmed(thread_id)
    }
}

/// Whether a submit to `thread_id` may go to `thread`.
pub open spec fn is_thread_for(thread_id: Seq<char>, thread: Seq<char>) -> bool {
    if is_blank(thread_id) {
        is_uuid(thread)
    } else {
        thread == trim(thread_id)
    }
}

/// A thread that a submit goes to is never blank, and trimming it again leaves
/// it as it is.
pub proof fn lemma_thread_for_is_not_blank(thread_id: Seq<char>, thread: Seq<char>)
    requires
        is_thread_for(thread_id, thread),
    ensures
        !is_blank(thread),
        !is_blank(thread_id) ==> trim(thread) == thread,
{
    if is_blank(thread_id) {
        lemma_uuid_not_blank(thread);
    } else {
        lemma_trim_blank(thread_id);
        lemma_trim_blank(thread);
    }
}

/// Check the inputs of a submit, and name its thread.
pub fn check_run_inputs(
    thread_id: String,
    messages: Vec<Message>,
    allow_empty_messages: bool,
) -> (r: Result<(String, Vec<Message>), Fault>)
    ensures
        match r {
            Err(fault) => messages@.len() == 0 && !allow_empty_messages && fault
                == Fault::NoMessages,
            Ok((thread, kept)) => (messages@.len() > 0 || allow_empty_messages) && kept == messages
                && is_thread_for(thread_id@, thread@),
        },
{
    if messages.len() == 0 && !allow_empty_messages {
        return Err(Fault::NoMessages);
    }
    let thread = if blank(thread_id.as_str()) {
        fresh_id()
    } else {
        trimmed(thread_id.as_str())
    };
    Ok((thread, messages))
}

/// Validate and normalize the inputs of a run request: there must be a message,
/// unless none is needed, and a blank thread id is replaced by a fresh one.
pub fn validate_run_inputs(
    thread_id: String,
    messages: Vec<Message>,
    allow_empty_messages: bool,
) -> (r: Result<(String, Vec<Message>), MailboxError>)
    ensures
        match r {
            Err(error) => messages@.len() == 0 && !allow_empty_messages
                && Fault::NoMessages.reported_as(error),
            Ok((thread, kept)) => (messages@.len() > 0 || allow_empty_messages) && kept == messages
                && is_thread_for(thread_id@, thread@),
        },
{
    match check_run_inputs(thread_id, messages, allow_empty_messages) {
        Ok(inputs) => Ok(inputs),
        Err(fault) => Err(fault.to_error()),
    }
}

/// Build the input snapshot of a run whose committed log ends at `last_seq` and
/// that the given messages triggered, and the projection of it that the run
/// record holds. The range spans the whole log.
pub fn build_run_input(thread_id: &str, last_seq: u64, trigger_message_ids: &Vec<String>) -> (r: (
    RunInputSnapshot,
    RunMessageInput,
))
    ensures
        r.0@ == whole_log_input(thread_id@, last_seq, texts(trigger_message_ids@)),
        r.1@ == r.0@,
{
    let range = MessageSeqRange::new(1, last_seq);
    let snapshot = RunInputSnapshot {
        thread_id: thread_id.to_owned(),
        range,
        trigger_message_ids: copy_texts(trigger_message_ids),
        selected_message_ids: Vec::new(),
        context_policy: None,
        compacted_snapshot_id: None,
    };
    let input = RunMessageInput {
        thread_id: thread_id.to_owned(),
        range,
        trigger_message_ids: copy_texts(trigger_message_ids),
        selected_message_ids: Vec::new(),
        context_policy: None,
        compacted_snapshot_id: None,
    };
    assert(texts(Seq::<String>::empty()) =~= Seq::<Seq<char>>::empty());
    assert(snapshot.selected_message_ids@ =~= Seq::<String>::empty());
    assert(input.selected_message_ids@ =~= Seq::<String>::empty());
    (snapshot, input)
}

/// Whether a message has no usable id.
pub open spec fn lacks_id(message: Message) -> bool {
    match message.id {
        Some(id) => id@.len() == 0,
        None => true,
    }
}

/// A message with an id: its own, or `fresh` where it has none.
pub open spec fn identified(message: Message, fresh: String) -> Message {
    if lacks_id(message) {
        Message { id: Some(fresh), ..message }
    } else {
        message
    }
}

/// Give each message that lacks an id the fresh one at its place.
pub fn identify_messages(messages: Vec<Message>, fresh: Vec<String>) -> (r: Vec<Message>)
    requires
        fresh@.len() == messages@.len(),
    ensures
        r@.len() == messages@.len(),
        forall|i: int|
            0 <= i < r@.len() ==> #[trigger] r@[i] == identified(messages@[i], fresh@[i]),
{
    let mut rest = messages;
    let mut ids = fresh;
    let mut backward: Vec<Message> = Vec::new();
    let n: usize = rest.len();
    while rest.len() > 0
        invariant
            n == messages@.len(),
            fresh@.len() == n,
            rest@.len() <= n,
            rest@ =~= messages@.take(rest@.len() as int),
            ids@ =~= fresh@.take(rest@.len() as int),
            backward@.len() == n - rest@.len(),
            forall|k: int|
                0 <= k < backward@.len() ==> #[trigger] backward@[k] == identified(
                    messages@[n - 1 - k],
                    fresh@[n - 1 - k],
                ),
        decreases rest@.len(),
    {
        match (rest.pop(), ids.pop()) {
            (Some(message), Some(id)) => {
                let lacking = match &message.id {
                    Some(own) => own.as_str().is_empty(),
                    None => true,
                };
                if lacking {
                    backward.push(Message { id: Some(id), ..message });
                } else {
                    backward.push(message);
                }
            },
            _ => {},
        }
    }
    let out = reversed(backward);
    assert forall|i: int| 0 <= i < out@.len() implies #[trigger] out@[i] == identified(
        messages@[i],
        fresh@[i],
    ) by {
        assert(out@[i] == backward@[n - 1 - i]);
    }
    out
}

/// `n` fresh identifiers.
fn fresh_ids(n: usize) -> (r: Vec<String>)
    ensures
        r@.len() == n,
        forall|i: int| 0 <= i < n ==> is_uuid(#[trigger] r@[i]@),
{
    let mut out: Vec<String> = Vec::new();
    while out.len() < n
        invariant
            out@.len() <= n,
            forall|i: int| 0 <= i < out@.len() ==> is_uuid(#[trigger] out@[i]@),
        decreases n - out@.len(),
    {
        out.push(fresh_id());
    }
    out
}

/// Whether `given` is `messages` with a fresh id on each message that lacked one, and
/// all else as it was.
pub open spec fn have_ids(given: Seq<Message>, messages: Seq<Message>) -> bool {
    &&& given.len() == messages.len()
    &&& forall|i: int|
        0 <= i < given.len() ==> !lacks_id(#[trigger] given[i]) && given[i] == (Message {
            id: given[i].id,
            ..messages[i]
        }) && (if lacks_id(messages[i]) {
            is_uuid(given[i].id->0@)
        } else {
            given[i] == messages[i]
        })
}

/// Give every message that lacks an id a fresh one. All else stays as it is.
pub fn normalize_message_ids(messages: Vec<Message>) -> (r: Vec<Message>)
    ensures
        have_ids(r@, messages@),
{
    let fresh = fresh_ids(messages.len());
    proof {
        assert forall|i: int| 0 <= i < fresh@.len() implies fresh@[i]@.len() > 0 by {
            lemma_uuid_not_blank(fresh@[i]@);
        }
    }
    identify_messages(messages, fresh)
}

/// Messages that all have ids are left exactly as they are, so giving out ids
/// twice is the same as doing it once.
pub proof fn lemma_identified_is_stable(message: Message, fresh: String, other: String)
    requires
        fresh@.len() > 0,
    ensures
        !lacks_id(identified(message, fresh)),
        identified(identified(message, fresh), other) == identified(message, fresh),
{
}

/// The ids of the messages that have one, in order.
pub open spec fn ids_of(messages: Seq<Message>) -> Seq<Seq<char>>
    decreases messages.len(),
{
    if messages.len() == 0 {
        seq![]
    } else {
        match messages.last().id {
            Some(id) => ids_of(messages.drop_last()).push(id@),
            None => ids_of(messages.drop_last()),
        }
    }
}

/// The ids of the messages that have one, in order.
pub fn message_ids(messages: &Vec<Message>) -> (r: Vec<String>)
    ensures
        texts(r@) == ids_of(messages@),
{
    let mut out: Vec<String> = Vec::new();
    let mut i: usize = 0;
    assert(texts(out@) =~= ids_of(messages@.take(0)));
    while i < messages.len()
        invariant
            i <= messages@.len(),
            texts(out@) == ids_of(messages@.take(i as int)),
        decreases messages@.len() - i,
    {
        proof {
            assert(messages@.take(i as int + 1).drop_last() =~= messages@.take(i as int));
        }
        match &messages[i].id {
            Some(id) => {
                let ghost before = out@;
                out.push(id.clone());
                assert(texts(out@) =~= texts(before).push(id@));
            },
            None => {},
        }
        i = i + 1;
    }
    assert(messages@.take(i as int) =~= messages@);
    out
}

/// The smaller of two numbers.
pub open spec fn lesser(a: nat, b: nat) -> nat {
    if a <= b {
        a
    } else {
        b
    }
}

/// `base` doubled `exponent` times, but at most `max`.
pub open spec fn backed_off(base: nat, exponent: nat, max: nat) -> nat {
    lesser(base * pow2(exponent), max)
}

/// `base` doubled `exponent` times, but at most `max`.
fn back_off(base: u64, exponent: u32, max: u64) -> (r: u64)
    requires
        exponent <= 16,
    ensures
        r as nat == backed_off(base as nat, exponent as nat, max as nat),
{
    let mut factor: u128 = 1;
    let mut k: u32 = 0;
    proof {
        vstd::arithmetic::power2::lemma2_to64();
    }
    while k < exponent
        invariant
            k <= exponent <= 16,
            factor == pow2(k as nat),
            factor <= 0x10000,
            pow2(16) == 0x10000,
        decreases exponent - k,
    {
        proof {
            lemma_pow2_unfold((k + 1) as nat);
            if k + 1 < 16 {
                lemma_pow2_strictly_increases((k + 1) as nat, 16);
            }
        }
        factor = factor * 2;
        k = k + 1;
    }
    assert(base * factor <= 0xffff_ffff_ffff_ffff * 0x10000) by (nonlinear_arith)
        requires
            base <= 0xffff_ffff_ffff_ffff,
            factor <= 0x10000,
    ;
    let product: u128 = base as u128 * factor;
    if product <= max as u128 {
        product as u64
    } else {
        max
    }
}

/// The exponent of the delay before a failed dispatch is tried again: one less
/// than the attempts so far, at most six.
pub open spec fn retry_exponent(attempt_count: u32) -> nat {
    if attempt_count <= 1 {
        0
    } else {
        lesser((attempt_count - 1) as nat, 6)
    }
}

/// The delay before a dispatch that failed after so many attempts is tried again.
pub open spec fn retry_delay_of(config: MailboxConfig, attempt_count: u32) -> nat {
    backed_off(
        config.default_retry_delay_ms as nat,
        retry_exponent(attempt_count),
        config.max_retry_delay_ms as nat,
    )
}

/// The delay before a dispatch that failed after so many attempts is tried again.
pub fn retry_delay(config: &MailboxConfig, attempt_count: u32) -> (r: u64)
    ensures
        r as nat == retry_delay_of(*config, attempt_count),
{
    let before: u32 = attempt_count.saturating_sub(1);
    let exponent: u32 = if before < 6 {
        before
    } else {
        6
    };
    back_off(config.default_retry_delay_ms, exponent, config.max_retry_delay_ms)
}

/// The time at which a dispatch that failed at `now` is tried again. The end of
/// time is the latest.
pub open spec fn retry_time(config: MailboxConfig, attempt_count: u32, now: u64) -> u64 {
    lesser((now + retry_delay_of(config, attempt_count)) as nat, u64::MAX as nat) as u64
}

/// The time at which a dispatch that failed at `now` is tried again.
pub fn retry_at(config: &MailboxConfig, attempt_count: u32, now: u64) -> (r: u64)
    ensures
        r == retry_time(*config, attempt_count, now),
{
    now.saturating_add(retry_delay(config, attempt_count))
}

/// Retries never come sooner as attempts go up, and never later than the longest
/// delay.
pub proof fn lemma_retry_delay_grows_to_its_cap(config: MailboxConfig, fewer: u32, more: u32)
    requires
        fewer <= more,
    ensures
        retry_delay_of(config, fewer) <= retry_delay_of(config, more),
        retry_delay_of(config, more) <= config.max_retry_delay_ms,
        config.default_retry_delay_ms <= config.max_retry_delay_ms ==> retry_delay_of(config, fewer)
            >= config.default_retry_delay_ms,
{
    lemma_backed_off_grows(
        config.default_retry_delay_ms as nat,
        retry_exponent(fewer),
        retry_exponent(more),
        config.max_retry_delay_ms as nat,
    );
}

proof fn lemma_backed_off_grows(base: nat, fewer: nat, more: nat, max: nat)
    requires
        fewer <= more,
    ensures
        backed_off(base, fewer, max) <= backed_off(base, more, max) <= max,
        base <= max ==> backed_off(base, fewer, max) >= base,
{
    if fewer < more {
        lemma_pow2_strictly_increases(fewer, more);
    }
    lemma_pow2_pos(fewer);
    let small = pow2(fewer);
    let large = pow2(more);
    assert(base * small <= base * large) by (nonlinear_arith)
        requires
            small <= large,
    ;
    assert(base <= base * small) by (nonlinear_arith)
        requires
            1 <= small,
    ;
}

/// The exponent of the delay before a blocked signal is delivered again: one
/// less than the deliveries so far, at most sixteen.
pub open spec fn redelivery_exponent(redelivery_attempts: Option<u64>) -> nat {
    match redelivery_attempts {
        Some(n) if n > 1 => lesser((n - 1) as nat, 16),
        _ => 0,
    }
}

/// The delay before a blocked dispatch signal is delivered again: the base delay
/// doubled with each delivery after the first, at most the longest delay.
pub fn dispatch_signal_blocked_nack_delay(
    redelivery_attempts: Option<u64>,
    base_delay: u64,
    max_delay: u64,
) -> (r: u64)
    ensures
        r as nat == backed_off(
            base_delay as nat,
            redelivery_exponent(redelivery_attempts),
            max_delay as nat,
        ),
{
    let exponent: u32 = match redelivery_attempts {
        Some(n) => {
            let before: u64 = n.saturating_sub(1);
            if before < 16 {
                before as u32
            } else {
                16
            }
        },
        None => 0,
    };
    back_off(base_delay, exponent, max_delay)
}

/// Redeliveries never come sooner as deliveries go up, and never later than the
/// longest delay.
pub proof fn lemma_nack_delay_grows_to_its_cap(base: nat, fewer: u64, more: u64, max: nat)
    requires
        fewer <= more,
    ensures
        backed_off(base, redelivery_exponent(Some(fewer)), max) <= backed_off(
            base,
            redelivery_exponent(Some(more)),
            max,
        ),
        backed_off(base, redelivery_exponent(Some(more)), max) <= max,
{
    lemma_backed_off_grows(
        base,
        redelivery_exponent(Some(fewer)),
        redelivery_exponent(Some(more)),
        max,
    );
}

/// How long a dispatch waited before it was started, in milliseconds.
#[derive(Clone, Copy, Debug, PartialEq, Eq, Structural)]
pub struct StartLatencies {
    pub enqueue_to_start_ms: u64,
    pub eligible_to_start_ms: u64,
    pub claim_to_start_ms: u64,
}

/// The time from `from` to `to`, nothing where it is not after it.
pub open spec fn elapsed(from: u64, to: u64) -> u64 {
    if to >= from {
        (to - from) as u64
    } else {
        0
    }
}

/// How long a dispatch waited, from its creation, from when it was available,
/// and from its claim.
pub fn dispatch_start_latencies(dispatch: &RunDispatch, start_now: u64) -> (r: StartLatencies)
    ensures
        r.enqueue_to_start_ms == elapsed(dispatch.created_at, start_now),
        r.eligible_to_start_ms == elapsed(dispatch.available_at, start_now),
        r.claim_to_start_ms == elapsed(dispatch.updated_at, start_now),
{
    StartLatencies {
        enqueue_to_start_ms: start_now.saturating_sub(dispatch.created_at),
        eligible_to_start_ms: start_now.saturating_sub(dispatch.available_at),
        claim_to_start_ms: start_now.saturating_sub(dispatch.updated_at),
    }
}

/// How long a dispatch ran, and how long it took in all, in milliseconds.
#[derive(Clone, Copy, Debug, PartialEq, Eq, Structural)]
pub struct CompletionLatencies {
    pub runtime_ms: u64,
    pub enqueue_to_complete_ms: u64,
}

/// How long a dispatch ran, and how long it took from its creation.
pub fn dispatch_completion_latencies(
    dispatch: &RunDispatch,
    start_now: u64,
    completed_now: u64,
) -> (r: CompletionLatencies)
    ensures
        r.runtime_ms == elapsed(start_now, completed_now),
        r.enqueue_to_complete_ms == elapsed(dispatch.created_at, completed_now),
{
    CompletionLatencies {
        runtime_ms: completed_now.saturating_sub(start_now),
        enqueue_to_complete_ms: completed_now.saturating_sub(dispatch.created_at),
    }
}

/// The latencies of a dispatch that ended without running: it ran for no time,
/// and ended when it was completed, or at `now` where that is not recorded.
pub fn dispatch_terminal_latencies(dispatch: &RunDispatch, now: u64) -> (r: CompletionLatencies)
    ensures
        r.runtime_ms == 0,
        r.enqueue_to_complete_ms == elapsed(
            dispatch.created_at,
            match dispatch.completed_at {
                Some(t) => t,
                None => now,
            },
        ),
{
    let completed: u64 = match dispatch.completed_at {
        Some(t) => t,
        None => now,
    };
    dispatch_completion_latencies(dispatch, completed, completed)
}

/// The label of a result in metrics.
pub fn result_label<T, E>(result: &Result<T, E>) -> (r: &'static str)
    ensures
        r == (if result is Ok {
            "ok"
        } else {
            "error"
        }),
{
    if result.is_ok() {
        "ok"
    } else {
        "error"
    }
}

/// A request keeps a mode that was chosen on purpose. One in the foreground resumes
/// exactly where it brings decisions or continues a run; else it is a wake exactly where
/// it comes from inside; else it is scheduled in the background and stays in the
/// foreground otherwise. All else of the request stays as it is.
pub proof fn lemma_mode_follows_from_the_request(request: RunActivation, background: bool)
    ensures
        request.trace.run_mode != RunMode::Foreground ==> with_normalized_mode(request, background)
            == request,
        request.trace.run_mode == RunMode::Foreground ==> ({
            let mode = with_normalized_mode(request, background).trace.run_mode;
            let continues = request.control.seeded_decisions@.len() > 0 || request.intent.kind
                is HitlResume;
            let inside = request.trace.origin == RunOrigin::Internal;
            &&& mode == RunMode::Resume <==> continues
            &&& mode == RunMode::InternalWake <==> !continues && inside
            &&& mode == RunMode::Scheduled <==> !continues && !inside && background
            &&& mode == RunMode::Foreground <==> !continues && !inside && !background
        }),
        with_normalized_mode(request, background).intent == request.intent,
        with_normalized_mode(request, background).messages == request.messages,
        with_normalized_mode(request, background).options == request.options,
        with_normalized_mode(request, background).control == request.control,
        with_normalized_mode(request, background).persistence == request.persistence,
        with_normalized_mode(request, background).trace.origin == request.trace.origin,
        with_normalized_mode(request, background).trace.parent_run_id
            == request.trace.parent_run_id,
        with_normalized_mode(request, background).trace.transport_request_id
            == request.trace.transport_request_id,
{
}

proof fn lemma_backed_off_doubles(base: nat, exponent: nat, max: nat)
    ensures
        backed_off(base, 0, max) == if base <= max {
            base
        } else {
            max
        },
        backed_off(base, exponent + 1, max) == ({
            let twice = 2 * backed_off(base, exponent, max);
            if twice <= max {
                twice
            } else {
                max
            }
        }),
{
    vstd::arithmetic::power2::lemma2_to64();
    lemma_pow2_unfold(exponent + 1);
    let power = pow2(exponent);
    assert(base * (2 * power) == 2 * (base * power)) by (nonlinear_arith);
    assert(base * 1 == base);
}

/// The first retry comes after the usual delay. Each later one comes after twice the
/// delay of the one before, up to the seventh attempt, and never after more than the
/// longest delay; from then on the delay stays as it is.
pub proof fn lemma_retry_delay_doubles(config: MailboxConfig, attempts: u32)
    ensures
        attempts <= 1 ==> retry_delay_of(config, attempts) == (if config.default_retry_delay_ms
            <= config.max_retry_delay_ms {
            config.default_retry_delay_ms
        } else {
            config.max_retry_delay_ms
        }),
        1 <= attempts < 7 ==> retry_delay_of(config, (attempts + 1) as u32) == ({
            let twice = 2 * retry_delay_of(config, attempts);
            if twice <= config.max_retry_delay_ms {
                twice
            } else {
                config.max_retry_delay_ms as nat
            }
        }),
        attempts >= 7 ==> retry_delay_of(config, attempts) == retry_delay_of(config, 7),
{
    let base = config.default_retry_delay_ms as nat;
    let max = config.max_retry_delay_ms as nat;
    lemma_backed_off_doubles(base, retry_exponent(attempts), max);
}

/// A dispatch that failed is tried again once its delay is over, unless time ends before.
pub proof fn lemma_retry_comes_after_its_delay(config: MailboxConfig, attempts: u32, now: u64)
    ensures
        now + retry_delay_of(config, attempts) <= u64::MAX ==> retry_time(config, attempts, now)
            == now + retry_delay_of(config, attempts),
        now + retry_delay_of(config, attempts) > u64::MAX ==> retry_time(config, attempts, now)
            == u64::MAX,
{
}

/// A signal that is blocked for the first time comes back after the usual delay. Each
/// later delivery comes after twice the delay of the one before, sixteen times, and never
/// after more than the longest delay.
pub proof fn lemma_nack_delay_doubles(base: nat, deliveries: u64, max: nat)
    ensures
        backed_off(base, redelivery_exponent(None), max) == (if base <= max {
            base
        } else {
            max
        }),
        deliveries <= 1 ==> backed_off(base, redelivery_exponent(Some(deliveries)), max)
            == backed_off(base, redelivery_exponent(None), max),
        1 <= deliveries < 17 ==> backed_off(
            base,
            redelivery_exponent(Some((deliveries + 1) as u64)),
            max,
        ) == ({
            let twice = 2 * backed_off(base, redelivery_exponent(Some(deliveries)), max);
            if twice <= max {
                twice
            } else {
                max
            }
        }),
        deliveries >= 17 ==> backed_off(base, redelivery_exponent(Some(deliveries)), max)
            == backed_off(base, redelivery_exponent(Some(17)), max),
{
    lemma_backed_off_doubles(base, redelivery_exponent(Some(deliveries)), max);
    lemma_backed_off_doubles(base, 0, max);
}

/// The ids of messages that all have one are theirs, in order.
pub proof fn lemma_ids_are_those_of_the_messages(messages: Seq<Message>)
    requires
        forall|i: int| 0 <= i < messages.len() ==> (#[trigger] messages[i]).id is Some,
    ensures
        ids_of(messages).len() == messages.len(),
        forall|i: int|
            0 <= i < messages.len() ==> #[trigger] ids_of(messages)[i] == messages[i].id->0@,
    decreases messages.len(),
{
    if messages.len() > 0 {
        let shorter = messages.drop_last();
        assert forall|i: int| 0 <= i < shorter.len() implies (#[trigger] shorter[i]).id is Some by {
            assert(shorter[i] == messages[i]);
        }
        lemma_ids_are_those_of_the_messages(shorter);
        assert(messages[messages.len() - 1].id is Some);
        assert forall|i: int| 0 <= i < messages.len() implies #[trigger] ids_of(messages)[i]
            == messages[i].id->0@ by {
            if i < shorter.len() {
                assert(ids_of(shorter)[i] == shorter[i].id->0@);
            }
        }
    }
}

/// The ids of messages are those of one part followed by those of the other.
pub proof fn lemma_ids_of_parts(first: Seq<Message>, second: Seq<Message>)
    ensures
        ids_of(first + second) == ids_of(first) + ids_of(second),
    decreases second.len(),
{
    if second.len() == 0 {
        assert(first + second =~= first);
        assert(ids_of(first) + ids_of(second) =~= ids_of(first));
    } else {
        lemma_ids_of_parts(first, second.drop_last());
        assert((first + second).drop_last() =~= first + second.drop_last());
        assert((first + second).last() == second.last());
        assert(ids_of(first + second) =~= ids_of(first) + ids_of(second));
    }
}

/// The time that went by leads from the one moment to the other, and none went by where
/// that is not later.
pub proof fn lemma_elapsed_leads_to_the_later(from: u64, to: u64)
    ensures
        from <= to ==> from + elapsed(from, to) == to,
        to <= from ==> elapsed(from, to) == 0,
{
}

/// Messages that are given ids keep all else, and each that had an id keeps it; then each
/// has an id that is not empty.
pub proof fn lemma_messages_keep_their_ids(given: Seq<Message>, messages: Seq<Message>, i: int)
    requires
        have_ids(given, messages),
        0 <= i < messages.len(),
    ensures
        given.len() == messages.len(),
        given[i].id is Some,
        given[i].id->0@.len() > 0,
        messages[i].id is Some && messages[i].id->0@.len() > 0 ==> given[i].id == messages[i].id,
        messages[i].id is None || messages[i].id->0@.len() == 0 ==> is_uuid(given[i].id->0@),
        given[i].role == messages[i].role,
        given[i].content == messages[i].content,
        given[i].visibility == messages[i].visibility,
        given[i].metadata == messages[i].metadata,
{
    assert(!lacks_id(given[i]));
}

} // verus!
