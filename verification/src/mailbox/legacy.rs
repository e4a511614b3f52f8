//! What earlier run records keep of a request beside its messages.

use vstd::prelude::*;

use crate::activation::{
    copy_decisions, copy_values, resumed_run, AdapterKind, RunActivation, RunControl, RunIntent,
    RunKind, RunMode, RunOptions, RunPersistence, RunTrace, SeededDecision,
};
use crate::error::MailboxError;
use crate::json::copy_json;
use crate::message::copy_text;
use crate::run::{copy_texts, RunMessageInput, RunRecord, RunRequestSnapshot};
use crate::text::{blank, is_blank};

verus! {

/// What an earlier run record keeps of a request beside its messages.
#[derive(Debug, PartialEq)]
pub struct LegacyRunSnapshotExtras {
    pub overrides: Option<serde_json::Value>,
    pub decisions: Vec<SeededDecision>,
    pub frontend_tools: Vec<serde_json::Value>,
    pub continue_run_id: Option<String>,
    pub run_id_hint: Option<String>,
    pub dispatch_id_hint: Option<String>,
    pub parent_thread_id: Option<String>,
    pub transport_request_id: Option<String>,
    pub run_mode: RunMode,
    pub adapter: AdapterKind,
}

/// The first value, where there is one, or else the second.
pub open spec fn or_text(first: Option<String>, second: Option<String>) -> Option<String> {
    if first is Some {
        first
    } else {
        second
    }
}

fn first_text(first: Option<String>, second: Option<String>) -> (r: Option<String>)
    ensures
        r == or_text(first, second),
{
    if first.is_some() {
        first
    } else {
        second
    }
}

impl LegacyRunSnapshotExtras {
    /// Whether all is as in a request that chose nothing.
    pub open spec fn is_plain(self) -> bool {
        &&& self.overrides is None
        &&& self.decisions@.len() == 0
        &&& self.frontend_tools@.len() == 0
        &&& self.continue_run_id is None
        &&& self.run_id_hint is None
        &&& self.dispatch_id_hint is None
        &&& self.parent_thread_id is None
        &&& self.transport_request_id is None
        &&& self.run_mode == RunMode::Foreground
        &&& self.adapter == AdapterKind::Internal
    }

    /// Whether these are the extras of a request.
    pub open spec fn are_of(self, request: RunActivation) -> bool {
        &&& self.overrides == request.options.overrides
        &&& self.decisions@ == request.control.seeded_decisions@
        &&& self.frontend_tools@ == request.options.frontend_tools@
        &&& self.continue_run_id == resumed_run(request)
        &&& self.run_id_hint == request.persistence.run_id_hint
        &&& self.dispatch_id_hint == request.persistence.dispatch_id_hint
        &&& self.parent_thread_id == request.trace.parent_thread_id
        &&& self.transport_request_id == request.trace.transport_request_id
        &&& self.run_mode == request.trace.run_mode
        &&& self.adapter == request.trace.adapter
    }

    /// The extras of a request.
    pub fn from_request(request: &RunActivation) -> (r: LegacyRunSnapshotExtras)
        ensures
            r.are_of(*request),
    {
        LegacyRunSnapshotExtras {
            overrides: copy_json(&request.options.overrides),
            decisions: copy_decisions(&request.control.seeded_decisions),
            frontend_tools: copy_values(&request.options.frontend_tools),
            continue_run_id: request.resume_run_id(),
            run_id_hint: copy_text(&request.persistence.run_id_hint),
            dispatch_id_hint: copy_text(&request.persistence.dispatch_id_hint),
            parent_thread_id: copy_text(&request.trace.parent_thread_id),
            transport_request_id: copy_text(&request.trace.transport_request_id),
            run_mode: request.trace.run_mode,
            adapter: request.trace.adapter,
        }
    }

    /// What is to be stored: nothing where the request chose nothing. Turning the
    /// extras into a value never fails.
    pub fn to_value(&self) -> (r: Result<Option<&LegacyRunSnapshotExtras>, MailboxError>)
        ensures
            r matches Ok(stored) && (if self.is_plain() {
                stored is None
            } else {
                stored == Some(self)
            }),
    {
        let chosen = self.overrides.is_some() || self.decisions.len() > 0
            || self.frontend_tools.len() > 0 || self.continue_run_id.is_some()
            || self.run_id_hint.is_some() || self.dispatch_id_hint.is_some()
            || self.parent_thread_id.is_some() || self.transport_request_id.is_some()
            || self.run_mode != RunMode::Foreground || self.adapter != AdapterKind::Internal;
        if chosen {
            Ok(Some(self))
        } else {
            Ok(None)
        }
    }

    /// The request with these extras. What the extras leave open stays as it is in
    /// the request.
    pub open spec fn applied(self, request: RunActivation) -> RunActivation {
        RunActivation {
            intent: match self.continue_run_id {
                Some(run_id) => RunIntent {
                    kind: RunKind::HitlResume { run_id },
                    ..request.intent
                },
                None => request.intent,
            },
            options: RunOptions {
                overrides: if self.overrides is Some {
                    self.overrides
                } else {
                    request.options.overrides
                },
                frontend_tools: self.frontend_tools,
            },
            control: RunControl { seeded_decisions: self.decisions },
            persistence: RunPersistence {
                run_id_hint: or_text(self.run_id_hint, request.persistence.run_id_hint),
                dispatch_id_hint: or_text(
                    self.dispatch_id_hint,
                    request.persistence.dispatch_id_hint,
                ),
                ..request.persistence
            },
            trace: RunTrace {
                parent_thread_id: or_text(self.parent_thread_id, request.trace.parent_thread_id),
                transport_request_id: or_text(
                    self.transport_request_id,
                    request.trace.transport_request_id,
                ),
                run_mode: self.run_mode,
                adapter: self.adapter,
                ..request.trace
            },
            ..request
        }
    }

    /// Apply these extras to a request.
    pub fn apply_to(self, request: RunActivation) -> (r: RunActivation)
        ensures
            r == self.applied(request),
    {
        let mut r = request;
        if let Some(run_id) = self.continue_run_id {
            r.intent.kind = RunKind::HitlResume { run_id };
        }
        if self.overrides.is_some() {
            r.options.overrides = self.overrides;
        }
        r.options.frontend_tools = self.frontend_tools;
        r.control.seeded_decisions = self.decisions;
        r.persistence.run_id_hint = first_text(self.run_id_hint, r.persistence.run_id_hint);
        r.persistence.dispatch_id_hint = first_text(
            self.dispatch_id_hint,
            r.persistence.dispatch_id_hint,
        );
        r.trace.parent_thread_id = first_text(self.parent_thread_id, r.trace.parent_thread_id);
        r.trace.transport_request_id = first_text(
            self.transport_request_id,
            r.trace.transport_request_id,
        );
        r.trace.run_mode = self.run_mode;
        r.trace.adapter = self.adapter;
        r
    }
}

/// What an earlier run record is converted to a snapshot from: the request that it
/// keeps with its extras, the input of the run, and what the record says of the run.
#[derive(Debug, PartialEq)]
pub struct LegacyConversion {
    pub request: RunRequestSnapshot,
    pub input: Option<RunMessageInput>,
    pub resolution_id: Option<String>,
    pub thread_id: String,
    pub agent_id: Option<String>,
    pub parent_run_id: Option<String>,
    pub extras: Option<LegacyRunSnapshotExtras>,
}

impl LegacyConversion {
    /// Whether this is what a record is converted from. The agent is named where the
    /// record names one.
    pub open spec fn is_of(
        self,
        run: RunRecord,
        request: RunRequestSnapshot,
        extras: Option<LegacyRunSnapshotExtras>,
    ) -> bool {
        &&& self.request.input_message_ids@ == request.input_message_ids@
        &&& self.request.input_message_count == request.input_message_count
        &&& self.request.request_extras == request.request_extras
        &&& match (self.input, run.input) {
            (Some(input), Some(own)) => input@ == own@,
            (None, None) => true,
            _ => false,
        }
        &&& self.resolution_id == run.resolution_id
        &&& self.thread_id == run.thread_id
        &&& self.agent_id == (if is_blank(run.agent_id@) {
            None
        } else {
            Some(run.agent_id)
        })
        &&& self.parent_run_id == run.parent_run_id
        &&& self.extras == extras
    }

    /// What a record is converted from.
    pub fn of(
        run: &RunRecord,
        request: &RunRequestSnapshot,
        extras: Option<LegacyRunSnapshotExtras>,
    ) -> (r: LegacyConversion)
        ensures
            r.is_of(*run, *request, extras),
    {
        let input = match &run.input {
            Some(own) => Some(
                RunMessageInput {
                    thread_id: own.thread_id.clone(),
                    range: own.range,
                    trigger_message_ids: copy_texts(&own.trigger_message_ids),
                    selected_message_ids: copy_texts(&own.selected_message_ids),
                    context_policy: copy_json(&own.context_policy),
                    compacted_snapshot_id: copy_text(&own.compacted_snapshot_id),
                },
            ),
            None => None,
        };
        LegacyConversion {
            request: RunRequestSnapshot {
                input_message_ids: copy_texts(&request.input_message_ids),
                input_message_count: request.input_message_count,
                request_extras: copy_json(&request.request_extras),
            },
            input,
            resolution_id: copy_text(&run.resolution_id),
            thread_id: run.thread_id.clone(),
            agent_id: if blank(run.agent_id.as_str()) {
                None
            } else {
                Some(run.agent_id.clone())
            },
            parent_run_id: copy_text(&run.parent_run_id),
            extras,
        }
    }
}

/// The extras of a request, applied to a request that chose nothing, give back
/// what the first one chose; and extras that are not stored change nothing.
pub proof fn lemma_extras_round_trip(
    extras: LegacyRunSnapshotExtras,
    request: RunActivation,
    plain: LegacyRunSnapshotExtras,
    blank: RunActivation,
)
    requires
        extras.are_of(request),
        plain.are_of(blank),
        plain.is_plain(),
    ensures
        extras.are_of(extras.applied(blank)),
        extras.is_plain() ==> extras.are_of(blank),
{
    if extras.is_plain() {
        assert(extras.decisions@ =~= blank.control.seeded_decisions@);
        assert(extras.frontend_tools@ =~= blank.options.frontend_tools@);
    }
}

/// The extras of a request are what it chose: its overrides, decisions and tools, the run
/// that it continues, its ids, where it came from, its mode and its adapter.
pub proof fn lemma_extras_are_what_was_chosen(
    extras: LegacyRunSnapshotExtras,
    request: RunActivation,
)
    requires
        extras.are_of(request),
    ensures
        extras.overrides == request.options.overrides,
        extras.decisions@ == request.control.seeded_decisions@,
        extras.frontend_tools@ == request.options.frontend_tools@,
        request.intent.kind matches RunKind::HitlResume { run_id } ==> extras.continue_run_id
            == Some(run_id),
        request.intent.kind is NewRun ==> extras.continue_run_id is None,
        extras.run_id_hint == request.persistence.run_id_hint,
        extras.dispatch_id_hint == request.persistence.dispatch_id_hint,
        extras.parent_thread_id == request.trace.parent_thread_id,
        extras.transport_request_id == request.trace.transport_request_id,
        extras.run_mode == request.trace.run_mode,
        extras.adapter == request.trace.adapter,
{
}

/// Extras are left out of the record exactly where the request chose nothing.
pub proof fn lemma_only_plain_extras_are_left_out(extras: LegacyRunSnapshotExtras)
    ensures
        extras.is_plain() <==> extras.overrides is None && extras.decisions@.len() == 0
            && extras.frontend_tools@.len() == 0 && extras.continue_run_id is None
            && extras.run_id_hint is None && extras.dispatch_id_hint is None
            && extras.parent_thread_id is None && extras.transport_request_id is None
            && extras.run_mode == RunMode::Foreground && extras.adapter == AdapterKind::Internal,
{
}

/// Extras that are applied to a request give it what they hold, and leave to it what they
/// leave open; its messages, thread and agent stay.
pub proof fn lemma_applied_extras_choose(extras: LegacyRunSnapshotExtras, request: RunActivation)
    ensures
        ({
            let after = extras.applied(request);
            &&& after.messages == request.messages
            &&& after.intent.thread_id == request.intent.thread_id
            &&& after.intent.agent_id == request.intent.agent_id
            &&& extras.continue_run_id matches Some(run_id) ==> after.intent.kind == (
            RunKind::HitlResume { run_id })
            &&& extras.continue_run_id is None ==> after.intent.kind == request.intent.kind
            &&& extras.overrides is Some ==> after.options.overrides == extras.overrides
            &&& extras.overrides is None ==> after.options.overrides == request.options.overrides
            &&& after.options.frontend_tools == extras.frontend_tools
            &&& after.control.seeded_decisions == extras.decisions
            &&& extras.run_id_hint is Some ==> after.persistence.run_id_hint == extras.run_id_hint
            &&& extras.run_id_hint is None ==> after.persistence.run_id_hint
                == request.persistence.run_id_hint
            &&& extras.dispatch_id_hint is Some ==> after.persistence.dispatch_id_hint
                == extras.dispatch_id_hint
            &&& extras.dispatch_id_hint is None ==> after.persistence.dispatch_id_hint
                == request.persistence.dispatch_id_hint
            &&& extras.parent_thread_id is Some ==> after.trace.parent_thread_id
                == extras.parent_thread_id
            &&& extras.parent_thread_id is None ==> after.trace.parent_thread_id
                == request.trace.parent_thread_id
            &&& extras.transport_request_id is Some ==> after.trace.transport_request_id
                == extras.transport_request_id
            &&& extras.transport_request_id is None ==> after.trace.transport_request_id
                == request.trace.transport_request_id
            &&& after.trace.run_mode == extras.run_mode
            &&& after.trace.adapter == extras.adapter
            &&& after.trace.origin == request.trace.origin
            &&& after.persistence.messages_already_persisted
                == request.persistence.messages_already_persisted
        }),
{
}

/// A record of an earlier form is converted from what it keeps of the request, from its
/// input, its resolution, its thread and its parent, and from its agent where that is not
/// blank.
pub proof fn lemma_conversion_takes_what_the_record_keeps(
    conversion: LegacyConversion,
    run: RunRecord,
    request: RunRequestSnapshot,
    extras: Option<LegacyRunSnapshotExtras>,
)
    requires
        conversion.is_of(run, request, extras),
    ensures
        conversion.request.input_message_ids@ == request.input_message_ids@,
        conversion.request.input_message_count == request.input_message_count,
        conversion.request.request_extras == request.request_extras,
        conversion.input is Some <==> run.input is Some,
        run.input is Some ==> conversion.input->0.range == run.input->0.range
            && conversion.input->0.thread_id@ == run.input->0.thread_id@,
        conversion.resolution_id == run.resolution_id,
        conversion.thread_id == run.thread_id,
        conversion.agent_id is Some <==> !is_blank(run.agent_id@),
        conversion.agent_id is Some ==> conversion.agent_id == Some(run.agent_id),
        conversion.parent_run_id == run.parent_run_id,
        conversion.extras == extras,
{
    if run.input is Some {
        let one = conversion.input->0@;
        let other = run.input->0@;
        assert(one.range == other.range && one.thread_id == other.thread_id);
    }
}

} // verus!
