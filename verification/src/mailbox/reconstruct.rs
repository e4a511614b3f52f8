//! Reconstruction of a run request from the durable run record, for replay.

use vstd::prelude::*;

use crate::activation::{
    resumed_run, RunActivation, RunControl, RunIntent, RunKind, RunMode, RunPersistence, RunTrace,
};
use crate::delivery::MessageRecord;
use crate::dispatch::RunDispatch;
use crate::error::{Fault, StorageError};
use crate::lists::reversed;
use crate::mailbox::helpers::ids_of;
use crate::mailbox::legacy::{LegacyConversion, LegacyRunSnapshotExtras};
use crate::mailbox::prepare_run::{is_activation_snapshot, is_append_record};
use crate::mailbox::submit::prepared_run;
use crate::message::{messages_view, texts, Message};
use crate::run::{MessageSeqRange, RunActivationSnapshot, RunInputView, RunRecord, RunStatus};
use crate::text::same_text;

verus! {

/// The messages that triggered a run, by their ids.
pub open spec fn trigger_ids(run: RunRecord) -> Seq<String> {
    match run.activation {
        Some(snapshot) => snapshot.input.trigger_message_ids@,
        None => match run.request {
            Some(request) => request.input_message_ids@,
            None => Seq::empty(),
        },
    }
}

/// The messages that triggered a run of an earlier form without ids: the last ones
/// of its input, as many as were counted.
pub open spec fn trigger_range(run: RunRecord) -> Option<MessageSeqRange> {
    match (run.activation, run.request, run.input) {
        (None, Some(request), Some(input)) => match input.range {
            Some(range) => {
                let count = request.input_message_count;
                let start = if range.to_seq >= count {
                    range.to_seq - count + 1
                } else {
                    1int
                };
                if count == 0 {
                    None
                } else if start > range.from_seq {
                    MessageSeqRange::of(start as u64, range.to_seq)
                } else {
                    MessageSeqRange::of(range.from_seq, range.to_seq)
                }
            },
            None => None,
        },
        _ => None,
    }
}

fn activation_messages_from_range(run: &RunRecord) -> (r: Option<MessageSeqRange>)
    ensures
        r == trigger_range(*run),
{
    match (&run.activation, &run.request, &run.input) {
        (None, Some(request), Some(input)) => match input.range {
            Some(range) => {
                let count: u64 = request.input_message_count;
                if count == 0 {
                    return None;
                }
                let start: u64 = if range.to_seq >= count {
                    range.to_seq - count + 1
                } else {
                    1
                };
                if start > range.from_seq {
                    MessageSeqRange::new(start, range.to_seq)
                } else {
                    MessageSeqRange::new(range.from_seq, range.to_seq)
                }
            },
            None => None,
        },
        _ => None,
    }
}

/// Whether a message has an id.
pub open spec fn has_id(message: Message, id: Seq<char>) -> bool {
    message.id matches Some(own) && own@ == id
}

/// Whether `at` is where a message of an id first stands in a log.
pub open spec fn stands_at(log: Seq<Message>, id: Seq<char>, at: int) -> bool {
    &&& 0 <= at < log.len()
    &&& has_id(log[at], id)
    &&& forall|i: int| 0 <= i < at ==> !has_id(#[trigger] log[i], id)
}

/// Whether a message is the first one of an id in a log.
pub open spec fn is_pick(message: Message, log: Seq<Message>, id: Seq<char>) -> bool {
    exists|at: int| #[trigger] stands_at(log, id, at) && message@ == log[at]@
}

/// Whether `found` holds the messages of the ids, in the order of the ids.
pub open spec fn picks(found: Seq<Message>, log: Seq<Message>, ids: Seq<String>) -> bool {
    &&& found.len() == ids.len()
    &&& forall|i: int| 0 <= i < ids.len() ==> is_pick(#[trigger] found[i], log, ids[i]@)
}

fn find_message(log: &Vec<Message>, id: &String) -> (r: Option<usize>)
    ensures
        match r {
            Some(at) => stands_at(log@, id@, at as int),
            None => forall|i: int| 0 <= i < log@.len() ==> !has_id(#[trigger] log@[i], id@),
        },
{
    let mut i: usize = 0;
    while i < log.len()
        invariant
            i <= log@.len(),
            forall|k: int| 0 <= k < i ==> !has_id(#[trigger] log@[k], id@),
        decreases log@.len() - i,
    {
        match &log[i].id {
            Some(own) => {
                if same_text(own.as_str(), id.as_str()) {
                    return Some(i);
                }
            },
            None => {},
        }
        i = i + 1;
    }
    None
}

/// The messages of the given ids from a log: all of them, or nothing.
pub fn messages_by_ids(log: &Vec<Message>, ids: &Vec<String>) -> (r: Option<Vec<Message>>)
    ensures
        match r {
            Some(found) => picks(found@, log@, ids@),
            None => exists|i: int|
                0 <= i < ids@.len() && forall|k: int|
                    0 <= k < log@.len() ==> !has_id(#[trigger] log@[k], (#[trigger] ids@[i])@),
        },
{
    let mut found: Vec<Message> = Vec::new();
    let mut i: usize = 0;
    while i < ids.len()
        invariant
            i <= ids@.len(),
            picks(found@, log@, ids@.take(i as int)),
        decreases ids@.len() - i,
    {
        match find_message(log, &ids[i]) {
            Some(at) => {
                let ghost before = found@;
                found.push(log[at].clone());
                proof {
                    let longer = ids@.take(i as int + 1);
                    assert(stands_at(log@, ids@[i as int]@, at as int));
                    assert forall|k: int| 0 <= k < longer.len() implies is_pick(
                        #[trigger] found@[k],
                        log@,
                        longer[k]@,
                    ) by {
                        if k < i {
                            assert(found@[k] == before[k]);
                            assert(ids@.take(i as int)[k] == longer[k]);
                        }
                    }
                }
            },
            None => {
                assert(forall|k: int| 0 <= k < log@.len() ==> !has_id(#[trigger] log@[k], ids@[i as int]@));
                return None;
            },
        }
        i = i + 1;
    }
    assert(ids@.take(i as int) =~= ids@);
    Some(found)
}

/// The request that a run is replayed with: what its snapshot holds, the messages
/// as persisted ones, and the run itself, which is continued where it waits.
pub open spec fn replayed(
    run: RunRecord,
    snapshot: RunActivationSnapshot,
    messages: Vec<Message>,
    dispatch_id: String,
) -> RunActivation {
    RunActivation {
        intent: if run.resumable() {
            RunIntent { kind: RunKind::HitlResume { run_id: run.run_id }, ..snapshot.intent }
        } else {
            snapshot.intent
        },
        messages,
        options: snapshot.options,
        trace: RunTrace {
            run_mode: if run.resumable() && snapshot.trace.run_mode == RunMode::Foreground {
                RunMode::Resume
            } else {
                snapshot.trace.run_mode
            },
            dispatch_id: Some(dispatch_id),
            ..snapshot.trace
        },
        control: RunControl { seeded_decisions: snapshot.seeded_decisions },
        persistence: RunPersistence {
            run_id_hint: if run.resumable() {
                None
            } else {
                Some(run.run_id)
            },
            dispatch_id_hint: None,
            resolution_id_hint: None,
            messages_already_persisted: true,
        },
        has_run_resolver: false,
    }
}

/// Build the request that a run is replayed with.
fn replay(
    run_id: String,
    resumable: bool,
    snapshot: RunActivationSnapshot,
    messages: Vec<Message>,
    dispatch_id: String,
) -> (r: RunActivation)
    ensures
        forall|run: RunRecord|
            run.run_id == run_id && #[trigger] run.resumable() == resumable ==> r == replayed(
                run,
                snapshot,
                messages,
                dispatch_id,
            ),
{
    let mut intent = snapshot.intent;
    let mut trace = snapshot.trace;
    let mut run_id_hint: Option<String> = None;
    if resumable {
        intent.kind = RunKind::HitlResume { run_id };
        if trace.run_mode == RunMode::Foreground {
            trace.run_mode = RunMode::Resume;
        }
    } else {
        run_id_hint = Some(run_id);
    }
    trace.dispatch_id = Some(dispatch_id);
    RunActivation {
        intent,
        messages,
        options: snapshot.options,
        trace,
        control: RunControl { seeded_decisions: snapshot.seeded_decisions },
        persistence: RunPersistence {
            run_id_hint,
            dispatch_id_hint: None,
            resolution_id_hint: None,
            messages_already_persisted: true,
        },
        has_run_resolver: false,
    }
}

/// The operation that is due in a reconstruction.
#[derive(Debug, PartialEq)]
pub enum ReplayStep {
    /// Load the run of the dispatch.
    LoadRun,
    /// Look up the worker's cache of the thread's messages.
    ReadCache { run: RunRecord },
    /// Load the message of this id.
    LoadMessage { run: RunRecord, messages: Vec<Message>, message_id: String },
    /// Load the messages of the range.
    LoadRange { run: RunRecord, range: MessageSeqRange },
    /// Parse what the record keeps of the request beside its messages.
    ParseExtras { run: RunRecord, messages: Vec<Message> },
    /// Convert the record of an earlier form to a snapshot.
    Convert { run: RunRecord, messages: Vec<Message>, conversion: LegacyConversion },
    /// The reconstruction is over.
    Done { outcome: Result<RunActivation, Fault> },
}

/// The reply to the operation of a step.
#[derive(Debug, PartialEq)]
pub enum ReplayReply {
    Run(Result<Option<RunRecord>, StorageError>),
    Cached(Option<Vec<Message>>),
    Message(Result<Option<MessageRecord>, StorageError>),
    Range(Result<Vec<MessageRecord>, StorageError>),
    Extras(Result<LegacyRunSnapshotExtras, String>),
    Converted(Result<RunActivationSnapshot, String>),
}

/// Whether a reply is one that the operation of a step gives.
pub open spec fn replay_answers(step: ReplayStep, reply: ReplayReply) -> bool {
    match step {
        ReplayStep::LoadRun => reply is Run,
        ReplayStep::ReadCache { run } => reply is Cached && trigger_ids(run).len() > 0,
        ReplayStep::LoadMessage { run, messages, .. } => reply is Message && messages@.len()
            < trigger_ids(run).len(),
        ReplayStep::LoadRange { .. } => reply is Range,
        ReplayStep::ParseExtras { .. } => reply is Extras,
        ReplayStep::Convert { .. } => reply is Converted,
        ReplayStep::Done { .. } => false,
    }
}

/// The reconstruction fails.
pub open spec fn unreplayable(fault: Fault) -> ReplayStep {
    ReplayStep::Done { outcome: Err(fault) }
}

/// Whether `after` goes on with a run and its messages.
pub open spec fn goes_on_with(
    dispatch: RunDispatch,
    run: RunRecord,
    messages: Seq<Message>,
    after: ReplayStep,
) -> bool {
    match (run.activation, run.request) {
        (Some(snapshot), _) => after matches ReplayStep::Done { outcome: Ok(request) } && request
            == replayed(run, snapshot, request.messages, dispatch.dispatch_id)
            && request.messages@ == messages,
        (None, Some(request)) => if request.request_extras is Some {
            after matches ReplayStep::ParseExtras { run: r, messages: m } && r == run && m@
                == messages
        } else {
            after matches ReplayStep::Convert { run: r, messages: m, conversion } && r == run && m@
                == messages && conversion.is_of(run, request, None)
        },
        (None, None) => after == unreplayable(Fault::NoActivationSnapshot { run_id: run.run_id }),
    }
}

/// Whether `after` is how a loaded run is taken up.
pub open spec fn takes_up(dispatch: RunDispatch, run: RunRecord, after: ReplayStep) -> bool {
    if run.thread_id@ != dispatch.thread_id@ {
        after == unreplayable(
            Fault::DispatchThreadMismatch {
                run_id: run.run_id,
                run_thread: run.thread_id,
                dispatch_thread: dispatch.thread_id,
            },
        )
    } else if trigger_ids(run).len() > 0 {
        after == (ReplayStep::ReadCache { run })
    } else {
        match trigger_range(run) {
            Some(range) => after == (ReplayStep::LoadRange { run, range }),
            None => goes_on_with(dispatch, run, Seq::empty(), after),
        }
    }
}

/// The messages of records.
pub open spec fn messages_of(records: Seq<MessageRecord>) -> Seq<Message> {
    records.map_values(|record: MessageRecord| record.message)
}

/// Whether `after` goes on with the messages that are loaded so far.
pub open spec fn goes_on_loading(
    dispatch: RunDispatch,
    run: RunRecord,
    loaded: Seq<Message>,
    after: ReplayStep,
) -> bool {
    if loaded.len() < trigger_ids(run).len() {
        after matches ReplayStep::LoadMessage { run: r, messages, message_id } && r == run
            && messages@ == loaded && message_id == trigger_ids(run)[loaded.len() as int]
    } else {
        goes_on_with(dispatch, run, loaded, after)
    }
}

/// Whether `after` goes on with messages that the cache holds.
pub open spec fn goes_on_from_cache(
    dispatch: RunDispatch,
    run: RunRecord,
    log: Seq<Message>,
    after: ReplayStep,
) -> bool {
    exists|found: Seq<Message>| #[trigger]
        picks(found, log, trigger_ids(run)) && goes_on_with(dispatch, run, found, after)
}

/// Whether a log lacks a message that triggered the run.
pub open spec fn lacks_trigger(run: RunRecord, log: Seq<Message>) -> bool {
    exists|i: int|
        0 <= i < trigger_ids(run).len() && forall|k: int|
            0 <= k < log.len() ==> !has_id(#[trigger] log[k], (#[trigger] trigger_ids(run)[i])@)
}

/// Whether `after` is a step that a reply may lead to.
pub open spec fn replay_follows(
    dispatch: RunDispatch,
    step: ReplayStep,
    reply: ReplayReply,
    after: ReplayStep,
) -> bool {
    match (step, reply) {
        (ReplayStep::LoadRun, ReplayReply::Run(result)) => match result {
            Err(error) => after == unreplayable(Fault::Store(error)),
            Ok(None) => after == unreplayable(
                Fault::DispatchRunMissing {
                    run_id: dispatch.run_id,
                    dispatch_id: dispatch.dispatch_id,
                },
            ),
            Ok(Some(run)) => takes_up(dispatch, run, after),
        },
        (ReplayStep::ReadCache { run }, ReplayReply::Cached(cached)) => match cached {
            Some(log) => goes_on_from_cache(dispatch, run, log@, after) || (lacks_trigger(
                run,
                log@,
            ) && goes_on_loading(dispatch, run, Seq::empty(), after)),
            None => goes_on_loading(dispatch, run, Seq::empty(), after),
        },
        (
            ReplayStep::LoadMessage { run, messages, message_id },
            ReplayReply::Message(result),
        ) => match result {
            Err(error) => after == unreplayable(Fault::Store(error)),
            Ok(None) => after == unreplayable(
                Fault::RunMessageMissing { message_id, run_id: run.run_id },
            ),
            Ok(Some(record)) => goes_on_loading(
                dispatch,
                run,
                messages@.push(record.message),
                after,
            ),
        },
        (ReplayStep::LoadRange { run, .. }, ReplayReply::Range(result)) => match result {
            Err(error) => after == unreplayable(Fault::Store(error)),
            Ok(records) => goes_on_with(dispatch, run, messages_of(records@), after),
        },
        (ReplayStep::ParseExtras { run, messages }, ReplayReply::Extras(result)) => match result {
            Err(error) => after == unreplayable(Fault::CorruptExtras { error }),
            Ok(extras) => match run.request {
                Some(request) => after matches ReplayStep::Convert {
                    run: r,
                    messages: m,
                    conversion,
                } && r == run && m == messages && conversion.is_of(run, request, Some(extras)),
                None => after == unreplayable(Fault::NoActivationSnapshot { run_id: run.run_id }),
            },
        },
        (ReplayStep::Convert { run, messages, .. }, ReplayReply::Converted(result)) =>
        match result {
            Err(error) => after == unreplayable(Fault::LegacyConversion { error }),
            Ok(snapshot) => after == (ReplayStep::Done {
                outcome: Ok(replayed(run, snapshot, messages, dispatch.dispatch_id)),
            }),
        },
        _ => false,
    }
}

/// A reconstruction of the request of a dispatch.
#[derive(Debug, PartialEq)]
pub struct Reconstruction {
    pub dispatch: RunDispatch,
    pub step: ReplayStep,
}

fn fail(fault: Fault) -> (r: ReplayStep)
    ensures
        r == unreplayable(fault),
{
    ReplayStep::Done { outcome: Err(fault) }
}

fn go_on_with(dispatch: &RunDispatch, run: RunRecord, messages: Vec<Message>) -> (r: ReplayStep)
    ensures
        goes_on_with(*dispatch, run, messages@, r),
{
    let resumable = run.is_resumable_waiting();
    let mut kept = run;
    match kept.activation {
        Some(snapshot) => {
            let request = replay(
                kept.run_id,
                resumable,
                snapshot,
                messages,
                dispatch.dispatch_id.clone(),
            );
            ReplayStep::Done { outcome: Ok(request) }
        },
        None => {
            kept.activation = None;
            let parsed = match &kept.request {
                Some(request) => if request.request_extras.is_some() {
                    Some(None)
                } else {
                    Some(Some(LegacyConversion::of(&kept, request, None)))
                },
                None => None,
            };
            match parsed {
                Some(None) => ReplayStep::ParseExtras { run: kept, messages },
                Some(Some(conversion)) => ReplayStep::Convert { run: kept, messages, conversion },
                None => fail(Fault::NoActivationSnapshot { run_id: kept.run_id }),
            }
        },
    }
}

fn go_on_loading(dispatch: &RunDispatch, run: RunRecord, loaded: Vec<Message>) -> (r: ReplayStep)
    ensures
        goes_on_loading(*dispatch, run, loaded@, r),
{
    let next = match ids_of_run(&run) {
        Some(ids) => if loaded.len() < ids.len() {
            Some(ids[loaded.len()].clone())
        } else {
            None
        },
        None => None,
    };
    match next {
        Some(message_id) => ReplayStep::LoadMessage { run, messages: loaded, message_id },
        None => go_on_with(dispatch, run, loaded),
    }
}

fn ids_of_run(run: &RunRecord) -> (r: Option<&Vec<String>>)
    ensures
        match r {
            Some(ids) => ids@ == trigger_ids(*run),
            None => trigger_ids(*run).len() == 0,
        },
{
    match &run.activation {
        Some(snapshot) => Some(&snapshot.input.trigger_message_ids),
        None => match &run.request {
            Some(request) => Some(&request.input_message_ids),
            None => None,
        },
    }
}

fn take_up(dispatch: &RunDispatch, run: RunRecord) -> (r: ReplayStep)
    ensures
        takes_up(*dispatch, run, r),
{
    if !same_text(run.thread_id.as_str(), dispatch.thread_id.as_str()) {
        return fail(
            Fault::DispatchThreadMismatch {
                run_id: run.run_id,
                run_thread: run.thread_id,
                dispatch_thread: dispatch.thread_id.clone(),
            },
        );
    }
    let named = match ids_of_run(&run) {
        Some(ids) => ids.len() > 0,
        None => false,
    };
    if named {
        return ReplayStep::ReadCache { run };
    }
    match activation_messages_from_range(&run) {
        Some(range) => ReplayStep::LoadRange { run, range },
        None => {
            let none: Vec<Message> = Vec::new();
            assert(none@ =~= Seq::<Message>::empty());
            go_on_with(dispatch, run, none)
        },
    }
}

/// The messages of records.
pub fn unwrap_records(records: Vec<MessageRecord>) -> (r: Vec<Message>)
    ensures
        r@ == messages_of(records@),
{
    let mut rest = records;
    let mut backward: Vec<Message> = Vec::new();
    let n: usize = rest.len();
    while rest.len() > 0
        invariant
            n == records@.len(),
            rest@.len() <= n,
            rest@ =~= records@.take(rest@.len() as int),
            backward@.len() == n - rest@.len(),
            forall|k: int|
                0 <= k < backward@.len() ==> #[trigger] backward@[k] == records@[n - 1 - k].message,
        decreases rest@.len(),
    {
        match rest.pop() {
            Some(record) => {
                backward.push(record.message);
            },
            None => {},
        }
    }
    let out = reversed(backward);
    assert(out@ =~= messages_of(records@));
    out
}

impl Reconstruction {
    /// Begin to reconstruct the request of a dispatch. `cached` is its run, where
    /// the worker's cache holds it.
    pub fn reconstruct_run_request(dispatch: RunDispatch, cached: Option<RunRecord>) -> (r:
        Reconstruction)
        ensures
            r.dispatch == dispatch,
            match cached {
                Some(run) => takes_up(dispatch, run, r.step),
                None => r.step == ReplayStep::LoadRun,
            },
    {
        let step = match cached {
            Some(run) => take_up(&dispatch, run),
            None => ReplayStep::LoadRun,
        };
        Reconstruction { dispatch, step }
    }

    /// Whether a reply is one that the operation of the due step gives.
    pub fn expects(&self, reply: &ReplayReply) -> (r: bool)
        ensures
            r == replay_answers(self.step, *reply),
    {
        match (&self.step, reply) {
            (ReplayStep::LoadRun, ReplayReply::Run(_)) => true,
            (ReplayStep::ReadCache { run }, ReplayReply::Cached(_)) => match ids_of_run(run) {
                Some(ids) => ids.len() > 0,
                None => false,
            },
            (ReplayStep::LoadMessage { run, messages, .. }, ReplayReply::Message(_)) => {
                match ids_of_run(run) {
                    Some(ids) => messages.len() < ids.len(),
                    None => false,
                }
            },
            (ReplayStep::LoadRange { .. }, ReplayReply::Range(_)) => true,
            (ReplayStep::ParseExtras { .. }, ReplayReply::Extras(_)) => true,
            (ReplayStep::Convert { .. }, ReplayReply::Converted(_)) => true,
            _ => false,
        }
    }

    /// Take the reply to the operation that was due.
    pub fn advance(self, reply: ReplayReply) -> (r: Reconstruction)
        requires
            replay_answers(self.step, reply),
        ensures
            r.dispatch == self.dispatch,
            replay_follows(self.dispatch, self.step, reply, r.step),
    {
        let dispatch = self.dispatch;
        let step = match (self.step, reply) {
            (ReplayStep::LoadRun, ReplayReply::Run(result)) => match result {
                Err(error) => fail(Fault::Store(error)),
                Ok(None) => fail(
                    Fault::DispatchRunMissing {
                        run_id: dispatch.run_id.clone(),
                        dispatch_id: dispatch.dispatch_id.clone(),
                    },
                ),
                Ok(Some(run)) => take_up(&dispatch, run),
            },
            (ReplayStep::ReadCache { run }, ReplayReply::Cached(cached)) => {
                let found = match (&cached, ids_of_run(&run)) {
                    (Some(log), Some(ids)) => messages_by_ids(log, ids),
                    _ => None,
                };
                match found {
                    Some(messages) => {
                        assert(picks(messages@, cached->0@, trigger_ids(run)));
                        go_on_with(&dispatch, run, messages)
                    },
                    None => {
                        let none: Vec<Message> = Vec::new();
                        assert(none@ =~= Seq::<Message>::empty());
                        go_on_loading(&dispatch, run, none)
                    },
                }
            },
            (
                ReplayStep::LoadMessage { run, messages, message_id },
                ReplayReply::Message(result),
            ) => match result {
                Err(error) => fail(Fault::Store(error)),
                Ok(None) => fail(Fault::RunMessageMissing { message_id, run_id: run.run_id }),
                Ok(Some(record)) => {
                    let mut loaded = messages;
                    loaded.push(record.message);
                    go_on_loading(&dispatch, run, loaded)
                },
            },
            (ReplayStep::LoadRange { run, .. }, ReplayReply::Range(result)) => match result {
                Err(error) => fail(Fault::Store(error)),
                Ok(records) => go_on_with(&dispatch, run, unwrap_records(records)),
            },
            (ReplayStep::ParseExtras { run, messages }, ReplayReply::Extras(result)) => {
                match result {
                    Err(error) => fail(Fault::CorruptExtras { error }),
                    Ok(extras) => {
                        let conversion = match &run.request {
                            Some(request) => Some(
                                LegacyConversion::of(&run, request, Some(extras)),
                            ),
                            None => None,
                        };
                        match conversion {
                            Some(conversion) => ReplayStep::Convert { run, messages, conversion },
                            None => fail(Fault::NoActivationSnapshot { run_id: run.run_id }),
                        }
                    },
                }
            },
            (ReplayStep::Convert { run, messages, .. }, ReplayReply::Converted(result)) => {
                match result {
                    Err(error) => fail(Fault::LegacyConversion { error }),
                    Ok(snapshot) => {
                        let resumable = run.is_resumable_waiting();
                        let request = replay(
                            run.run_id,
                            resumable,
                            snapshot,
                            messages,
                            dispatch.dispatch_id.clone(),
                        );
                        ReplayStep::Done { outcome: Ok(request) }
                    },
                }
            },
            (step, _) => step,
        };
        Reconstruction { dispatch, step }
    }
}

/// A replayed request is for the run of the record and for the dispatch, and its
/// messages are not stored a second time.
pub proof fn lemma_replay_names_run_and_dispatch(
    run: RunRecord,
    snapshot: RunActivationSnapshot,
    messages: Vec<Message>,
    dispatch_id: String,
)
    requires
        snapshot.intent.kind matches RunKind::HitlResume { run_id } ==> run_id == run.run_id,
    ensures
        prepared_run(replayed(run, snapshot, messages, dispatch_id)) == Some(run.run_id),
        run.resumable() ==> resumed_run(replayed(run, snapshot, messages, dispatch_id)) == Some(
            run.run_id,
        ),
        replayed(run, snapshot, messages, dispatch_id).trace.dispatch_id == Some(dispatch_id),
        replayed(run, snapshot, messages, dispatch_id).persistence.messages_already_persisted,
{
}

/// A request whose snapshot was stored is replayed as it was: with its thread,
/// agent, options, decisions and trace. Only a request that now continues its run,
/// the dispatch that runs it, and a foreground mode that becomes a resume, differ.
pub proof fn lemma_replay_gives_back_the_request(
    run: RunRecord,
    snapshot: RunActivationSnapshot,
    request: RunActivation,
    input: RunInputView,
    resolution_id: String,
    messages: Vec<Message>,
    dispatch_id: String,
)
    requires
        is_activation_snapshot(snapshot, request, input, resolution_id),
    ensures
        ({
            let again = replayed(run, snapshot, messages, dispatch_id);
            &&& again.intent.thread_id == request.intent.thread_id
            &&& again.intent.agent_id == request.intent.agent_id
            &&& !run.resumable() ==> again.intent == request.intent
            &&& again.options.same(request.options)
            &&& again.control.seeded_decisions@ == request.control.seeded_decisions@
            &&& again.trace == (RunTrace {
                run_mode: again.trace.run_mode,
                dispatch_id: Some(dispatch_id),
                ..request.trace
            })
            &&& again.trace.run_mode == request.trace.run_mode || (run.resumable()
                && request.trace.run_mode == RunMode::Foreground && again.trace.run_mode
                == RunMode::Resume)
        }),
{
}

/// Whether every message has an id.
pub open spec fn all_have_ids(messages: Seq<Message>) -> bool {
    forall|i: int| 0 <= i < messages.len() ==> (#[trigger] messages[i]).id is Some
}

proof fn lemma_ids_of_all(messages: Seq<Message>)
    requires
        all_have_ids(messages),
    ensures
        ids_of(messages).len() == messages.len(),
        forall|i: int|
            0 <= i < messages.len() ==> #[trigger] ids_of(messages)[i] == messages[i].id->0@,
    decreases messages.len(),
{
    if messages.len() > 0 {
        let shorter = messages.drop_last();
        assert forall|i: int| 0 <= i < shorter.len() implies (#[trigger] shorter[i]).id is Some by {
            assert(shorter[i] == messages[i]);
        }
        lemma_ids_of_all(shorter);
        assert(messages.last().id is Some);
        assert forall|i: int| 0 <= i < messages.len() implies #[trigger] ids_of(messages)[i]
            == messages[i].id->0@ by {
            if i < shorter.len() {
                assert(ids_of(messages)[i] == ids_of(shorter)[i]);
                assert(shorter[i] == messages[i]);
            }
        }
    }
}

/// Whether no two messages of a log share an id.
pub open spec fn ids_are_distinct(log: Seq<Message>) -> bool {
    forall|i: int, j: int|
        #![trigger log[i], log[j]]
        0 <= i < j < log.len() && log[i].id is Some && log[j].id is Some ==> log[i].id->0@
            != log[j].id->0@
}

/// The messages that a run was prepared with come back when it is replayed: from a
/// log in which no two messages share an id, the ids that the record keeps pick
/// exactly the messages that were appended, in their order.
pub proof fn lemma_replay_gives_back_the_messages(
    record: RunRecord,
    base: RunRecord,
    request: RunActivation,
    thread_id: Seq<char>,
    existing: Seq<Message>,
    messages: Seq<Message>,
    resolution_id: String,
    now: u64,
    found: Seq<Message>,
)
    requires
        is_append_record(
            record,
            base,
            request,
            thread_id,
            existing.len(),
            messages,
            resolution_id,
            now,
        ),
        all_have_ids(messages),
        ids_are_distinct(existing + messages),
        picks(found, existing + messages, trigger_ids(record)),
    ensures
        messages_view(found) == messages_view(messages),
{
    let log = existing + messages;
    let ids = trigger_ids(record);
    lemma_ids_of_all(messages);
    assert(texts(ids) == ids_of(messages));
    assert(texts(ids).len() == ids.len());
    assert forall|i: int| 0 <= i < messages.len() implies (#[trigger] found[i])@ == messages[i]@ by {
        assert(texts(ids)[i] == ids[i]@);
        assert(is_pick(found[i], log, ids[i]@));
        let at = choose|at: int| #[trigger]
            stands_at(log, ids[i]@, at) && found[i]@ == log[at]@;
        let place = existing.len() + i;
        assert(log[place] == messages[i]);
        assert(has_id(log[place], ids[i]@));
        assert(has_id(log[at], ids[i]@));
        if at < place {
            assert(log[at].id->0@ != log[place].id->0@);
        } else if place < at {
            assert(log[place].id->0@ != log[at].id->0@);
        }
    }
    assert(messages_view(found) =~= messages_view(messages));
}

/// A reconstruction: the steps that were due and the replies to them.
pub open spec fn is_reconstruction(
    dispatch: RunDispatch,
    steps: Seq<ReplayStep>,
    replies: Seq<ReplayReply>,
) -> bool {
    &&& steps.len() == replies.len() + 1
    &&& steps[0] is LoadRun
    &&& forall|i: int|
        #![trigger replies[i]]
        0 <= i < replies.len() ==> replay_answers(steps[i], replies[i]) && replay_follows(
            dispatch,
            steps[i],
            replies[i],
            steps[i + 1],
        )
}

/// The run that a step works on, where it works on one.
pub open spec fn run_of_step(step: ReplayStep) -> Option<RunRecord> {
    match step {
        ReplayStep::ReadCache { run } => Some(run),
        ReplayStep::LoadMessage { run, .. } => Some(run),
        ReplayStep::LoadRange { run, .. } => Some(run),
        ReplayStep::ParseExtras { run, .. } => Some(run),
        ReplayStep::Convert { run, .. } => Some(run),
        _ => None,
    }
}

/// No message is loaded, and nothing is replayed, for a run of another thread than
/// the dispatch's.
pub proof fn lemma_replay_stays_on_the_thread(
    dispatch: RunDispatch,
    steps: Seq<ReplayStep>,
    replies: Seq<ReplayReply>,
    at: int,
)
    requires
        is_reconstruction(dispatch, steps, replies),
        0 <= at < steps.len(),
    ensures
        run_of_step(steps[at]) matches Some(run) ==> run.thread_id@ == dispatch.thread_id@,
        steps[at] is LoadRun ==> at == 0,
    decreases at,
{
    if at > 0 {
        lemma_replay_stays_on_the_thread(dispatch, steps, replies, at - 1);
        assert(replay_answers(steps[at - 1], replies[at - 1]));
        assert(replay_follows(dispatch, steps[at - 1], replies[at - 1], steps[at]));
    }
}

/// A run is replayed with what its snapshot keeps: its thread, agent, options and
/// decisions, and where it came from, under the dispatch, with its messages as persisted
/// ones. A run that waits for input is continued, and resumes where it was in the
/// foreground; any other is named as the run to use.
pub proof fn lemma_replay_is_of_the_run(
    run: RunRecord,
    snapshot: RunActivationSnapshot,
    messages: Vec<Message>,
    dispatch_id: String,
)
    ensures
        ({
            let request = replayed(run, snapshot, messages, dispatch_id);
            let waits = run.status == RunStatus::Waiting && run.waiting is Some
                && run.waiting->0.resumable;
            &&& request.intent.thread_id == snapshot.intent.thread_id
            &&& request.intent.agent_id == snapshot.intent.agent_id
            &&& request.options == snapshot.options
            &&& request.control.seeded_decisions == snapshot.seeded_decisions
            &&& request.messages == messages
            &&& request.persistence.messages_already_persisted
            &&& request.persistence.resolution_id_hint is None
            &&& request.persistence.dispatch_id_hint is None
            &&& !request.has_run_resolver
            &&& request.trace.dispatch_id == Some(dispatch_id)
            &&& request.trace.origin == snapshot.trace.origin
            &&& request.trace.adapter == snapshot.trace.adapter
            &&& request.trace.parent_run_id == snapshot.trace.parent_run_id
            &&& request.trace.parent_thread_id == snapshot.trace.parent_thread_id
            &&& request.trace.transport_request_id == snapshot.trace.transport_request_id
            &&& request.trace.session_id == snapshot.trace.session_id
            &&& waits ==> request.intent.kind == (RunKind::HitlResume { run_id: run.run_id })
                && request.persistence.run_id_hint is None
            &&& !waits ==> request.intent.kind == snapshot.intent.kind
                && request.persistence.run_id_hint == Some(run.run_id)
            &&& waits && snapshot.trace.run_mode == RunMode::Foreground
                ==> request.trace.run_mode == RunMode::Resume
            &&& !waits || snapshot.trace.run_mode != RunMode::Foreground
                ==> request.trace.run_mode == snapshot.trace.run_mode
        }),
{
}

/// The messages that triggered a run are named by its snapshot where it has one, and else
/// by the request that it keeps.
pub proof fn lemma_triggers_come_from_the_snapshot_first(run: RunRecord)
    ensures
        run.activation matches Some(snapshot) ==> trigger_ids(run)
            == snapshot.input.trigger_message_ids@,
        run.activation is None && run.request is Some ==> trigger_ids(run)
            == run.request->0.input_message_ids@,
        run.activation is None && run.request is None ==> trigger_ids(run).len() == 0,
{
}

/// Where a run of an earlier form counts the messages that triggered it, they are the last
/// ones of its input: as many as were counted, or all where there are fewer.
pub proof fn lemma_counted_triggers_are_the_last_of_the_input(
    run: RunRecord,
    range: MessageSeqRange,
    count: u64,
)
    requires
        run.activation is None,
        run.request is Some && run.request->0.input_message_count == count,
        run.input is Some && run.input->0.range == Some(range),
        1 <= range.from_seq <= range.to_seq,
    ensures
        count == 0 ==> trigger_range(run) is None,
        count > 0 ==> (trigger_range(run) matches Some(last) && last.to_seq == range.to_seq
            && last.from_seq >= range.from_seq && (count <= range.to_seq - range.from_seq + 1
            ==> last.to_seq - last.from_seq + 1 == count) && (count > range.to_seq - range.from_seq
            + 1 ==> last.from_seq == range.from_seq)),
{
}

/// A reconstruction begins with the run of the dispatch. A store that fails, a run that is
/// gone and one of another thread are told apart; the messages are looked for by their
/// ids first, then by their count, and a run that names none is replayed without.
pub proof fn lemma_run_is_taken_up_by_its_triggers(
    dispatch: RunDispatch,
    steps: Seq<ReplayStep>,
    replies: Seq<ReplayReply>,
)
    requires
        is_reconstruction(dispatch, steps, replies),
        replies.len() > 0,
    ensures
        replies[0] matches ReplayReply::Run(result) && match result {
            Err(error) => steps[1] == (ReplayStep::Done { outcome: Err(Fault::Store(error)) }),
            Ok(None) => steps[1] == (ReplayStep::Done {
                outcome: Err(
                    Fault::DispatchRunMissing {
                        run_id: dispatch.run_id,
                        dispatch_id: dispatch.dispatch_id,
                    },
                ),
            }),
            Ok(Some(run)) => if run.thread_id@ != dispatch.thread_id@ {
                steps[1] == (ReplayStep::Done {
                    outcome: Err(
                        Fault::DispatchThreadMismatch {
                            run_id: run.run_id,
                            run_thread: run.thread_id,
                            dispatch_thread: dispatch.thread_id,
                        },
                    ),
                })
            } else {
                &&& trigger_ids(run).len() > 0 ==> steps[1] == (ReplayStep::ReadCache { run })
                &&& trigger_ids(run).len() == 0 && trigger_range(run) is Some ==> steps[1] == (
                ReplayStep::LoadRange { run, range: trigger_range(run)->0 })
                &&& trigger_ids(run).len() == 0 && trigger_range(run) is None && run.activation
                    is Some ==> (steps[1] matches ReplayStep::Done { outcome: Ok(request) }
                    && request.messages@.len() == 0)
                &&& trigger_ids(run).len() == 0 && trigger_range(run) is None && run.activation
                    is None && run.request is None ==> steps[1] == (ReplayStep::Done {
                    outcome: Err(Fault::NoActivationSnapshot { run_id: run.run_id }),
                })
            },
        },
{
    assert(replay_answers(steps[0], replies[0]));
    assert(replay_follows(dispatch, steps[0], replies[0], steps[1]));
}

/// Without a cache that holds them all, the messages are loaded one by one, in the order
/// in which the run names them: each step asks for the next id, with the messages that
/// came before. A message that is gone makes the reconstruction fail.
pub proof fn lemma_messages_are_loaded_in_order(
    dispatch: RunDispatch,
    steps: Seq<ReplayStep>,
    replies: Seq<ReplayReply>,
    i: int,
    run: RunRecord,
    messages: Vec<Message>,
    message_id: String,
)
    requires
        is_reconstruction(dispatch, steps, replies),
        0 <= i < replies.len(),
        steps[i] == (ReplayStep::LoadMessage { run, messages, message_id }),
    ensures
        messages@.len() < trigger_ids(run).len(),
        message_id == trigger_ids(run)[messages@.len() as int],
        replies[i] matches ReplayReply::Message(result) && match result {
            Err(error) => steps[i + 1] == (ReplayStep::Done { outcome: Err(Fault::Store(error)) }),
            Ok(None) => steps[i + 1] == (ReplayStep::Done {
                outcome: Err(Fault::RunMessageMissing { message_id, run_id: run.run_id }),
            }),
            Ok(Some(record)) => {
                let more = messages@.push(record.message);
                &&& more.len() < trigger_ids(run).len() ==> (
                steps[i + 1] matches ReplayStep::LoadMessage { run: r, messages: m, message_id: next }
                    && r == run && m@ == more && next == trigger_ids(run)[more.len() as int])
                &&& more.len() == trigger_ids(run).len() && run.activation is Some ==> (
                steps[i + 1] matches ReplayStep::Done { outcome: Ok(request) } && request.messages@
                    == more)
                &&& more.len() == trigger_ids(run).len() ==> !(steps[i + 1] is LoadMessage)
            },
        },
{
    lemma_asked_id_is_next(dispatch, steps, replies, i);
    assert(replay_answers(steps[i], replies[i]));
    assert(replay_follows(dispatch, steps[i], replies[i], steps[i + 1]));
}

proof fn lemma_asked_id_is_next(
    dispatch: RunDispatch,
    steps: Seq<ReplayStep>,
    replies: Seq<ReplayReply>,
    at: int,
)
    requires
        is_reconstruction(dispatch, steps, replies),
        0 <= at < steps.len(),
    ensures
        steps[at] matches ReplayStep::LoadMessage { run, messages, message_id } ==> messages@.len()
            < trigger_ids(run).len() && message_id == trigger_ids(run)[messages@.len() as int],
{
    if at > 0 {
        assert(replay_answers(steps[at - 1], replies[at - 1]));
        assert(replay_follows(dispatch, steps[at - 1], replies[at - 1], steps[at]));
    }
}

/// A request of a snapshot that was loaded is replayed as a request of that run under the
/// dispatch; one of an earlier form is converted first, with what it keeps beside its
/// messages where it keeps something; and what cannot be parsed or converted makes the
/// reconstruction fail.
pub proof fn lemma_earlier_records_are_converted(
    dispatch: RunDispatch,
    steps: Seq<ReplayStep>,
    replies: Seq<ReplayReply>,
    i: int,
)
    requires
        is_reconstruction(dispatch, steps, replies),
        0 <= i < replies.len(),
    ensures
        steps[i] matches ReplayStep::LoadRange { run, .. } ==> (
        replies[i] matches ReplayReply::Range(result) && match result {
            Err(error) => steps[i + 1] == (ReplayStep::Done { outcome: Err(Fault::Store(error)) }),
            Ok(records) => run.activation is None && run.request is Some ==> ((
            steps[i + 1] matches ReplayStep::ParseExtras { messages, .. } && run.request->0.request_extras
                is Some && messages@.len() == records@.len()) || (
            steps[i + 1] matches ReplayStep::Convert { messages, .. }
                && run.request->0.request_extras is None && messages@.len() == records@.len())),
        }),
        steps[i] matches ReplayStep::ParseExtras { run, messages } ==> (
        replies[i] matches ReplayReply::Extras(result) && match result {
            Err(error) => steps[i + 1] == (ReplayStep::Done {
                outcome: Err(Fault::CorruptExtras { error }),
            }),
            Ok(extras) => run.request is Some ==> (steps[i + 1] matches ReplayStep::Convert {
                run: r,
                messages: m,
                conversion,
            } && r == run && m == messages && conversion.extras == Some(extras)
                && conversion.thread_id == run.thread_id && conversion.resolution_id
                == run.resolution_id),
        }),
        steps[i] matches ReplayStep::Convert { run, messages, .. } ==> (
        replies[i] matches ReplayReply::Converted(result) && match result {
            Err(error) => steps[i + 1] == (ReplayStep::Done {
                outcome: Err(Fault::LegacyConversion { error }),
            }),
            Ok(snapshot) => steps[i + 1] matches ReplayStep::Done { outcome: Ok(request) }
                && request.messages == messages && request.intent.thread_id
                == snapshot.intent.thread_id && request.intent.agent_id
                == snapshot.intent.agent_id && request.trace.dispatch_id == Some(
                dispatch.dispatch_id,
            ),
        }),
{
    assert(replay_answers(steps[i], replies[i]));
    assert(replay_follows(dispatch, steps[i], replies[i], steps[i + 1]));
}

/// Whether no message of a log has an id.
pub open spec fn is_missing_from(log: Seq<Message>, id: Seq<char>) -> bool {
    forall|k: int|
        0 <= k < log.len() ==> (#[trigger] log[k]).id is None || log[k].id->0@ != id
}

/// The cached log serves a replay exactly where it holds every message that triggered the
/// run; where one is missing, all of them are loaded one by one, from the first.
pub proof fn lemma_cache_serves_only_where_it_is_complete(
    dispatch: RunDispatch,
    run: RunRecord,
    log: Vec<Message>,
    after: ReplayStep,
)
    requires
        replay_follows(
            dispatch,
            ReplayStep::ReadCache { run },
            ReplayReply::Cached(Some(log)),
            after,
        ),
    ensures
        after is LoadMessage <==> exists|i: int|
            0 <= i < trigger_ids(run).len() && is_missing_from(
                log@,
                (#[trigger] trigger_ids(run)[i])@,
            ),
        after matches ReplayStep::LoadMessage { run: r, messages, message_id } ==> r == run
            && messages@.len() == 0 && message_id == trigger_ids(run)[0],
{
    let ids = trigger_ids(run);
    if after is LoadMessage {
        assert(lacks_trigger(run, log@));
        let i = choose|i: int|
            0 <= i < ids.len() && forall|k: int|
                0 <= k < log@.len() ==> !has_id(#[trigger] log@[k], (#[trigger] ids[i])@);
        assert(is_missing_from(log@, ids[i]@)) by {
            assert forall|k: int| 0 <= k < log@.len() implies (#[trigger] log@[k]).id is None
                || log@[k].id->0@ != ids[i]@ by {
                assert(!has_id(log@[k], ids[i]@));
            }
        }
    }
    if exists|i: int| 0 <= i < ids.len() && is_missing_from(log@, (#[trigger] ids[i])@) {
        let i = choose|i: int| 0 <= i < ids.len() && is_missing_from(log@, (#[trigger] ids[i])@);
        if goes_on_from_cache(dispatch, run, log@, after) {
            let found = choose|found: Seq<Message>| #[trigger]
                picks(found, log@, ids) && goes_on_with(dispatch, run, found, after);
            assert(is_pick(found[i], log@, ids[i]@));
            let at = choose|at: int| #[trigger]
                stands_at(log@, ids[i]@, at) && found[i]@ == log@[at]@;
            assert(has_id(log@[at], ids[i]@));
        }
    }
}

} // verus!
