//! The activation of a run: what a caller asks for, and how it came in.

use vstd::prelude::*;

use crate::json::copy_json;
use crate::message::{copy_text, Message};

verus! {

/// The mode that a run is started in.
#[derive(Clone, Copy, Debug, PartialEq, Eq, Structural)]
pub enum RunMode {
    Foreground,
    Resume,
    Scheduled,
    InternalWake,
}

/// The protocol adapter that a run came in through.
#[derive(Clone, Copy, Debug, PartialEq, Eq, Structural)]
pub enum AdapterKind {
    Internal,
    Acp,
    AgUi,
    Other,
}

/// Who started a run.
#[derive(Clone, Copy, Debug, PartialEq, Eq, Structural)]
pub enum RunOrigin {
    User,
    A2A,
    Internal,
}

/// Whether a run is a new one or continues a waiting one.
#[derive(Debug, PartialEq)]
pub enum RunKind {
    NewRun,
    HitlResume { run_id: String },
}

impl Clone for RunKind {
    fn clone(&self) -> (r: Self)
        ensures
            r == *self,
    {
        match self {
            RunKind::NewRun => RunKind::NewRun,
            RunKind::HitlResume { run_id } => RunKind::HitlResume { run_id: run_id.clone() },
        }
    }
}

/// What a run is for.
#[derive(Debug, PartialEq)]
pub struct RunIntent {
    pub thread_id: String,
    pub agent_id: Option<String>,
    pub kind: RunKind,
}

impl Clone for RunIntent {
    fn clone(&self) -> (r: Self)
        ensures
            r == *self,
    {
        RunIntent {
            thread_id: self.thread_id.clone(),
            agent_id: copy_text(&self.agent_id),
            kind: self.kind.clone(),
        }
    }
}

/// How a run came in, and what it belongs to.
#[derive(Debug, PartialEq)]
pub struct RunTrace {
    pub run_mode: RunMode,
    pub adapter: AdapterKind,
    pub origin: RunOrigin,
    pub parent_run_id: Option<String>,
    pub parent_thread_id: Option<String>,
    pub transport_request_id: Option<String>,
    pub dispatch_id: Option<String>,
    pub session_id: Option<String>,
}

impl Clone for RunTrace {
    fn clone(&self) -> (r: Self)
        ensures
            r == *self,
    {
        RunTrace {
            run_mode: self.run_mode,
            adapter: self.adapter,
            origin: self.origin,
            parent_run_id: copy_text(&self.parent_run_id),
            parent_thread_id: copy_text(&self.parent_thread_id),
            transport_request_id: copy_text(&self.transport_request_id),
            dispatch_id: copy_text(&self.dispatch_id),
            session_id: copy_text(&self.session_id),
        }
    }
}

/// What a decision on a suspended tool call asks for.
#[derive(Clone, Copy, Debug, PartialEq, Eq, Structural)]
pub enum ResumeDecisionAction {
    Resume,
    Cancel,
}

/// A decision on a suspended tool call.
#[derive(Debug, PartialEq)]
pub struct ToolCallResume {
    pub decision_id: String,
    pub action: ResumeDecisionAction,
    pub result: serde_json::Value,
    pub reason: Option<String>,
    pub updated_at: u64,
}

impl Clone for ToolCallResume {
    fn clone(&self) -> (r: Self)
        ensures
            r == *self,
    {
        ToolCallResume {
            decision_id: self.decision_id.clone(),
            action: self.action,
            result: self.result.clone(),
            reason: copy_text(&self.reason),
            updated_at: self.updated_at,
        }
    }
}

/// A decision that a run is started with, and the tool call it is on.
#[derive(Debug, PartialEq)]
pub struct SeededDecision {
    pub tool_call_id: String,
    pub resume: ToolCallResume,
}

impl Clone for SeededDecision {
    fn clone(&self) -> (r: Self)
        ensures
            r == *self,
    {
        SeededDecision { tool_call_id: self.tool_call_id.clone(), resume: self.resume.clone() }
    }
}

/// A copy of a list of decisions.
pub fn copy_decisions(v: &Vec<SeededDecision>) -> (r: Vec<SeededDecision>)
    ensures
        r@ == v@,
{
    let mut out: Vec<SeededDecision> = Vec::new();
    let mut i: usize = 0;
    while i < v.len()
        invariant
            i <= v@.len(),
            out@ =~= v@.take(i as int),
        decreases v@.len() - i,
    {
        out.push(v[i].clone());
        i = i + 1;
    }
    assert(out@ =~= v@);
    out
}

/// Options of a run: inference overrides and the tools of the front end.
#[derive(Debug, PartialEq)]
pub struct RunOptions {
    pub overrides: Option<serde_json::Value>,
    pub frontend_tools: Vec<serde_json::Value>,
}

impl RunOptions {
    /// Whether two values hold the same options.
    pub open spec fn same(self, other: RunOptions) -> bool {
        self.overrides == other.overrides && self.frontend_tools@ == other.frontend_tools@
    }
}

/// A copy of a list of JSON values.
pub fn copy_values(v: &Vec<serde_json::Value>) -> (r: Vec<serde_json::Value>)
    ensures
        r@ == v@,
{
    let mut out: Vec<serde_json::Value> = Vec::new();
    let mut i: usize = 0;
    while i < v.len()
        invariant
            i <= v@.len(),
            out@ =~= v@.take(i as int),
        decreases v@.len() - i,
    {
        out.push(v[i].clone());
        i = i + 1;
    }
    assert(out@ =~= v@);
    out
}

impl Clone for RunOptions {
    fn clone(&self) -> (r: Self)
        ensures
            r.same(*self),
    {
        RunOptions {
            overrides: copy_json(&self.overrides),
            frontend_tools: copy_values(&self.frontend_tools),
        }
    }
}

/// Decisions that the run is started with.
#[derive(Clone, Debug, PartialEq)]
pub struct RunControl {
    pub seeded_decisions: Vec<SeededDecision>,
}

/// Identities that a caller, or an earlier step, has already chosen.
#[derive(Clone, Debug, PartialEq)]
pub struct RunPersistence {
    pub run_id_hint: Option<String>,
    pub dispatch_id_hint: Option<String>,
    pub resolution_id_hint: Option<String>,
    pub messages_already_persisted: bool,
}

/// A request to run an agent on a thread. `has_run_resolver` tells whether it
/// brings a resolver of its own.
#[derive(Clone, Debug, PartialEq)]
pub struct RunActivation {
    pub intent: RunIntent,
    pub messages: Vec<Message>,
    pub options: RunOptions,
    pub trace: RunTrace,
    pub control: RunControl,
    pub persistence: RunPersistence,
    pub has_run_resolver: bool,
}

/// The run that a request continues, if it continues one.
pub open spec fn resumed_run(request: RunActivation) -> Option<String> {
    match request.intent.kind {
        RunKind::HitlResume { run_id } => Some(run_id),
        RunKind::NewRun => None,
    }
}

impl RunActivation {
    /// A request with the given messages on a thread: in the foreground, from
    /// the user, through the internal adapter, with nothing else chosen.
    pub fn new(thread_id: String, messages: Vec<Message>) -> (r: RunActivation)
        ensures
            r.intent == (RunIntent { thread_id, agent_id: None, kind: RunKind::NewRun }),
            r.messages == messages,
            r.options.overrides is None,
            r.options.frontend_tools@.len() == 0,
            r.trace == (RunTrace {
                run_mode: RunMode::Foreground,
                adapter: AdapterKind::Internal,
                origin: RunOrigin::User,
                parent_run_id: None,
                parent_thread_id: None,
                transport_request_id: None,
                dispatch_id: None,
                session_id: None,
            }),
            r.control.seeded_decisions@.len() == 0,
            r.persistence == (RunPersistence {
                run_id_hint: None,
                dispatch_id_hint: None,
                resolution_id_hint: None,
                messages_already_persisted: false,
            }),
            !r.has_run_resolver,
    {
        RunActivation {
            intent: RunIntent { thread_id, agent_id: None, kind: RunKind::NewRun },
            messages,
            options: RunOptions { overrides: None, frontend_tools: Vec::new() },
            trace: RunTrace {
                run_mode: RunMode::Foreground,
                adapter: AdapterKind::Internal,
                origin: RunOrigin::User,
                parent_run_id: None,
                parent_thread_id: None,
                transport_request_id: None,
                dispatch_id: None,
                session_id: None,
            },
            control: RunControl { seeded_decisions: Vec::new() },
            persistence: RunPersistence {
                run_id_hint: None,
                dispatch_id_hint: None,
                resolution_id_hint: None,
                messages_already_persisted: false,
            },
            has_run_resolver: false,
        }
    }

    /// The request for the given agent.
    pub fn with_agent_id(self, agent_id: String) -> (r: RunActivation)
        ensures
            r == (RunActivation {
                intent: RunIntent { agent_id: Some(agent_id), ..self.intent },
                ..self
            }),
    {
        let mut r = self;
        r.intent.agent_id = Some(agent_id);
        r
    }

    /// The request with a run id chosen for it.
    pub fn with_run_id_hint(self, run_id: String) -> (r: RunActivation)
        ensures
            r == (RunActivation {
                persistence: RunPersistence { run_id_hint: Some(run_id), ..self.persistence },
                ..self
            }),
    {
        let mut r = self;
        r.persistence.run_id_hint = Some(run_id);
        r
    }

    /// The request as one that continues the given waiting run.
    pub fn with_continue_run_id(self, run_id: String) -> (r: RunActivation)
        ensures
            r == (RunActivation {
                intent: RunIntent { kind: RunKind::HitlResume { run_id }, ..self.intent },
                ..self
            }),
    {
        let mut r = self;
        r.intent.kind = RunKind::HitlResume { run_id };
        r
    }

    /// A copy of the id of the run that this request continues.
    pub fn resume_run_id(&self) -> (r: Option<String>)
        ensures
            r == resumed_run(*self),
    {
        match &self.intent.kind {
            RunKind::HitlResume { run_id } => Some(run_id.clone()),
            RunKind::NewRun => None,
        }
    }

    /// Whether this request continues a run.
    pub fn resumes(&self) -> (r: bool)
        ensures
            r == (resumed_run(*self) is Some),
    {
        match &self.intent.kind {
            RunKind::HitlResume { .. } => true,
            RunKind::NewRun => false,
        }
    }
}

/// A request continues a run exactly where it says so, and then the run that it names.
pub proof fn lemma_resume_names_its_run(request: RunActivation)
    ensures
        resumed_run(request) is None <==> request.intent.kind is NewRun,
        request.intent.kind matches RunKind::HitlResume { run_id } ==> resumed_run(request) == Some(
            run_id,
        ),
{
}

/// A request begins as a new run in the foreground that a user asked for, and is given an
/// agent or a run by name without any other change; a later name takes the place of an
/// earlier one.
pub proof fn lemma_request_is_what_it_is_given(
    thread_id: String,
    messages: Vec<Message>,
    made: RunActivation,
    agent_id: String,
    with_agent: RunActivation,
    run_id: String,
    with_run: RunActivation,
)
    requires
        call_ensures(RunActivation::new, (thread_id, messages), made),
        call_ensures(RunActivation::with_agent_id, (made, agent_id), with_agent),
        call_ensures(RunActivation::with_run_id_hint, (with_agent, run_id), with_run),
    ensures
        made.intent.thread_id == thread_id && made.messages == messages,
        made.intent.kind is NewRun && made.intent.agent_id is None,
        made.trace.run_mode == RunMode::Foreground && made.trace.origin == RunOrigin::User,
        with_run.intent.agent_id == Some(agent_id),
        with_run.persistence.run_id_hint == Some(run_id),
        with_run.messages == messages && with_run.trace == made.trace,
        with_run.intent.thread_id == thread_id && with_run.intent.kind is NewRun,
        with_run.control == made.control && with_run.options == made.options,
{
}

} // verus!
