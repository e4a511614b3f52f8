//! Live delivery of decisions on suspended tool calls.

use vstd::prelude::*;

use crate::activation::{SeededDecision, ToolCallResume};
use crate::dispatch::{
    live_target_for_dispatch, live_target_for_run, target_of_dispatch, target_of_run,
    LiveDeliveryOutcome, LiveRunCommand, LiveRunTarget, RunDispatch,
};
use crate::error::{Fault, StorageError};
use crate::mailbox::cancel::{
    advance_route, lookups_find, lookups_find_nothing, next_route_step, route_answers, route_expects,
    RouteReply, RouteStep,
};
use crate::run::RunRecord;

verus! {

/// The operation that is due in delivering a decision.
#[derive(Debug, PartialEq)]
pub enum DecisionStep {
    /// Hand the decision to the run of this process.
    SendLocal,
    /// Load the dispatch of the id, for the event of a decision taken here.
    FindDispatch,
    /// Load the run of the id, for the event.
    FindRun,
    /// Load the latest run of the thread of the id, for the event.
    FindLatest,
    /// Reach the run elsewhere.
    Route { route: RouteStep },
    /// Publish that the run received the decision.
    Publish { target: LiveRunTarget, delivery_path: &'static str },
    /// The delivery is over: whether a run took the decision.
    Done { outcome: Result<bool, Fault> },
}

/// The reply to the operation of a step.
#[derive(Debug, PartialEq)]
pub enum DecisionReply {
    Accepted(bool),
    Dispatch(Result<Option<RunDispatch>, StorageError>),
    Run(Result<Option<RunRecord>, StorageError>),
    Routed(RouteReply),
    Performed,
}

/// Whether a reply is one that the operation of a step gives.
pub open spec fn decision_answers(step: DecisionStep, reply: DecisionReply) -> bool {
    match step {
        DecisionStep::SendLocal => reply is Accepted,
        DecisionStep::FindDispatch => reply is Dispatch,
        DecisionStep::FindRun => reply is Run,
        DecisionStep::FindLatest => reply is Run,
        DecisionStep::Route { route } => reply matches DecisionReply::Routed(inner)
            && route_answers(route, inner),
        DecisionStep::Publish { .. } => reply is Performed,
        DecisionStep::Done { .. } => false,
    }
}

/// The delivery path of a decision that a run of this process took.
pub const LOCAL_LIVE: &'static str = "local_live";

/// The delivery path of a decision that was delivered elsewhere.
pub const REMOTE_LIVE: &'static str = "remote_live";

/// The step after the run of a decision taken here was looked for. Where it is not
/// found there is nothing to publish.
pub open spec fn after_lookup(run: Option<RunRecord>) -> DecisionStep {
    match run {
        Some(found) => DecisionStep::Publish {
            target: target_of_run(found),
            delivery_path: LOCAL_LIVE,
        },
        None => DecisionStep::Done { outcome: Ok(true) },
    }
}

/// The step of a delivery at a step of its route.
pub open spec fn decision_on_route(route: RouteStep) -> DecisionStep {
    match route {
        RouteStep::Done { outcome: Ok(Some(target)) } => DecisionStep::Publish {
            target,
            delivery_path: REMOTE_LIVE,
        },
        RouteStep::Done { outcome: Ok(None) } => DecisionStep::Done { outcome: Ok(false) },
        RouteStep::Done { outcome: Err(fault) } => DecisionStep::Done { outcome: Err(fault) },
        _ => DecisionStep::Route { route },
    }
}

/// The step that a reply leads to. A lookup for the event that fails is no reason
/// to report the decision as not taken.
pub open spec fn next_decision_step(step: DecisionStep, reply: DecisionReply) -> DecisionStep {
    match (step, reply) {
        (DecisionStep::SendLocal, DecisionReply::Accepted(accepted)) => if accepted {
            DecisionStep::FindDispatch
        } else {
            DecisionStep::Route { route: RouteStep::LoadDispatch }
        },
        (DecisionStep::FindDispatch, DecisionReply::Dispatch(result)) => match result {
            Ok(Some(dispatch)) => DecisionStep::Publish {
                target: target_of_dispatch(dispatch),
                delivery_path: LOCAL_LIVE,
            },
            Ok(None) => DecisionStep::FindRun,
            Err(_) => DecisionStep::FindRun,
        },
        (DecisionStep::FindRun, DecisionReply::Run(result)) => match result {
            Ok(Some(run)) => after_lookup(Some(run)),
            Ok(None) => DecisionStep::FindLatest,
            Err(_) => DecisionStep::Done { outcome: Ok(true) },
        },
        (DecisionStep::FindLatest, DecisionReply::Run(result)) => match result {
            Ok(run) => after_lookup(run),
            Err(_) => DecisionStep::Done { outcome: Ok(true) },
        },
        (DecisionStep::Route { route }, DecisionReply::Routed(inner)) => decision_on_route(
            next_route_step(route, inner),
        ),
        (DecisionStep::Publish { .. }, _) => DecisionStep::Done { outcome: Ok(true) },
        _ => step,
    }
}

/// The delivery of a decision to what an id names.
#[derive(Debug, PartialEq)]
pub struct DecisionDelivery {
    pub id: String,
    pub tool_call_id: String,
    pub resume: ToolCallResume,
    pub step: DecisionStep,
}

impl DecisionDelivery {
    /// Begin to deliver a decision: to a run of this process, or else to the run
    /// that the id leads to.
    pub fn send_decision_live(id: String, tool_call_id: String, resume: ToolCallResume) -> (r:
        DecisionDelivery)
        ensures
            r == (DecisionDelivery { id, tool_call_id, resume, step: DecisionStep::SendLocal }),
    {
        DecisionDelivery { id, tool_call_id, resume, step: DecisionStep::SendLocal }
    }

    /// The command that is delivered on the route: the one decision.
    pub fn command(&self) -> (r: LiveRunCommand)
        ensures
            r matches LiveRunCommand::Decision(decisions) && decisions@ == seq![
                SeededDecision { tool_call_id: self.tool_call_id, resume: self.resume },
            ],
    {
        let mut decisions: Vec<SeededDecision> = Vec::new();
        decisions.push(
            SeededDecision {
                tool_call_id: self.tool_call_id.clone(),
                resume: self.resume.clone(),
            },
        );
        assert(decisions@ =~= seq![
            SeededDecision { tool_call_id: self.tool_call_id, resume: self.resume },
        ]);
        LiveRunCommand::Decision(decisions)
    }

    /// Whether a reply is one that the operation of the due step gives.
    pub fn expects(&self, reply: &DecisionReply) -> (r: bool)
        ensures
            r == decision_answers(self.step, *reply),
    {
        match (&self.step, reply) {
            (DecisionStep::SendLocal, DecisionReply::Accepted(_)) => true,
            (DecisionStep::FindDispatch, DecisionReply::Dispatch(_)) => true,
            (DecisionStep::FindRun, DecisionReply::Run(_)) => true,
            (DecisionStep::FindLatest, DecisionReply::Run(_)) => true,
            (DecisionStep::Route { route }, DecisionReply::Routed(inner)) => route_expects(
                route,
                inner,
            ),
            (DecisionStep::Publish { .. }, DecisionReply::Performed) => true,
            _ => false,
        }
    }

    /// Take the reply to the operation that was due.
    pub fn advance(self, reply: DecisionReply) -> (r: DecisionDelivery)
        requires
            decision_answers(self.step, reply),
        ensures
            r == (DecisionDelivery { step: next_decision_step(self.step, reply), ..self }),
    {
        let step = match (self.step, reply) {
            (DecisionStep::SendLocal, DecisionReply::Accepted(accepted)) => if accepted {
                DecisionStep::FindDispatch
            } else {
                DecisionStep::Route { route: RouteStep::LoadDispatch }
            },
            (DecisionStep::FindDispatch, DecisionReply::Dispatch(result)) => match result {
                Ok(Some(dispatch)) => DecisionStep::Publish {
                    target: live_target_for_dispatch(&dispatch),
                    delivery_path: LOCAL_LIVE,
                },
                Ok(None) => DecisionStep::FindRun,
                Err(_) => DecisionStep::FindRun,
            },
            (DecisionStep::FindRun, DecisionReply::Run(result)) => match result {
                Ok(Some(run)) => publish_local(&run),
                Ok(None) => DecisionStep::FindLatest,
                Err(_) => DecisionStep::Done { outcome: Ok(true) },
            },
            (DecisionStep::FindLatest, DecisionReply::Run(result)) => match result {
                Ok(Some(run)) => publish_local(&run),
                Ok(None) => DecisionStep::Done { outcome: Ok(true) },
                Err(_) => DecisionStep::Done { outcome: Ok(true) },
            },
            (DecisionStep::Route { route }, DecisionReply::Routed(inner)) => {
                match advance_route(route, inner) {
                    RouteStep::Done { outcome: Ok(Some(target)) } => DecisionStep::Publish {
                        target,
                        delivery_path: REMOTE_LIVE,
                    },
                    RouteStep::Done { outcome: Ok(None) } => DecisionStep::Done {
                        outcome: Ok(false),
                    },
                    RouteStep::Done { outcome: Err(fault) } => DecisionStep::Done {
                        outcome: Err(fault),
                    },
                    route => DecisionStep::Route { route },
                }
            },
            (DecisionStep::Publish { .. }, _) => DecisionStep::Done { outcome: Ok(true) },
            (step, _) => step,
        };
        DecisionDelivery {
            id: self.id,
            tool_call_id: self.tool_call_id,
            resume: self.resume,
            step,
        }
    }
}

fn publish_local(run: &RunRecord) -> (r: DecisionStep)
    ensures
        r == after_lookup(Some(*run)),
{
    DecisionStep::Publish { target: live_target_for_run(run), delivery_path: LOCAL_LIVE }
}

/// A delivery: the steps that were due and the replies to them.
pub open spec fn is_decision_delivery(
    steps: Seq<DecisionStep>,
    replies: Seq<DecisionReply>,
) -> bool {
    &&& steps.len() == replies.len() + 1
    &&& steps[0] is SendLocal
    &&& forall|i: int|
        #![trigger replies[i]]
        0 <= i < replies.len() ==> decision_answers(steps[i], replies[i]) && steps[i + 1]
            == next_decision_step(steps[i], replies[i])
}

/// A decision that a run of this process took is never delivered a second time
/// elsewhere, and is reported as taken whatever the lookups for its event give.
pub proof fn lemma_decision_taken_here_stays_here(
    steps: Seq<DecisionStep>,
    replies: Seq<DecisionReply>,
    at: int,
)
    requires
        is_decision_delivery(steps, replies),
        replies.len() > 0,
        replies[0] == DecisionReply::Accepted(true),
        0 < at < steps.len(),
    ensures
        !(steps[at] is Route),
        steps[at] matches DecisionStep::Publish { delivery_path, .. } ==> delivery_path
            == LOCAL_LIVE,
        steps[at] matches DecisionStep::Done { outcome } ==> outcome == Ok::<bool, Fault>(true),
        !(steps[at] is SendLocal),
    decreases at,
{
    if at > 1 {
        lemma_decision_taken_here_stays_here(steps, replies, at - 1);
        assert(decision_answers(steps[at - 1], replies[at - 1]));
    }
    assert(decision_answers(steps[at - 1], replies[at - 1]));
}

/// What the replies to a routed decision say of its lookups.
pub open spec fn routed_decision(replies: Seq<DecisionReply>) -> Seq<RouteReply> {
    Seq::new((replies.len() - 1) as nat, |i: int| replies[i + 1]->Routed_0)
}

/// A decision that this process did not take goes to what its id leads to. It is reported
/// as taken exactly where the subscriber of what the lookups found took it, which is then
/// told as a remote delivery to that run; it is reported as not taken only where the
/// lookups found nothing, or what they found has no subscriber; and a store that fails
/// makes the delivery fail.
pub proof fn lemma_decision_reaches_what_the_id_names(
    steps: Seq<DecisionStep>,
    replies: Seq<DecisionReply>,
    outcome: Result<bool, Fault>,
)
    requires
        is_decision_delivery(steps, replies),
        steps.last() == (DecisionStep::Done { outcome }),
        replies[0] == DecisionReply::Accepted(false),
    ensures
        replies.len() <= 6,
        steps[1] == (DecisionStep::Route { route: RouteStep::LoadDispatch }),
        match outcome {
            Ok(true) => steps[steps.len() - 2] matches DecisionStep::Publish { target, delivery_path }
                && delivery_path@ == "remote_live"@ && lookups_find(
                routed_decision(replies),
                target,
            ) && replies[replies.len() - 2] == DecisionReply::Routed(
                RouteReply::Delivered(Ok(LiveDeliveryOutcome::Delivered)),
            ),
            Ok(false) => lookups_find_nothing(routed_decision(replies)) || (replies.last()
                == DecisionReply::Routed(
                RouteReply::Delivered(Ok(LiveDeliveryOutcome::NoSubscriber)),
            ) && (steps[steps.len() - 2] matches DecisionStep::Route {
                route: RouteStep::Deliver { target },
            } && lookups_find(routed_decision(replies), target))),
            Err(fault) => exists|error: StorageError|
                fault == Fault::Store(error) && (replies.last() == DecisionReply::Routed(
                    RouteReply::Dispatch(Err(error)),
                ) || replies.last() == DecisionReply::Routed(RouteReply::Run(Err(error)))
                    || replies.last() == DecisionReply::Routed(
                    RouteReply::Delivered(Err(error)),
                )),
        },
{
    let n = replies.len();
    assert(decision_answers(steps[0], replies[0]));
    if n > 1 {
        assert(decision_answers(steps[1], replies[1]));
        assert(routed_decision(replies)[0] == replies[1]->Routed_0);
    }
    if n > 2 {
        assert(decision_answers(steps[2], replies[2]));
        assert(routed_decision(replies)[1] == replies[2]->Routed_0);
    }
    if n > 3 {
        assert(decision_answers(steps[3], replies[3]));
        assert(routed_decision(replies)[2] == replies[3]->Routed_0);
    }
    if n > 4 {
        assert(decision_answers(steps[4], replies[4]));
    }
    if n > 5 {
        assert(decision_answers(steps[5], replies[5]));
    }
    if n > 6 {
        assert(decision_answers(steps[6], replies[6]));
    }
    if let Err(fault) = outcome {
        let error = fault->Store_0;
        assert(fault == Fault::Store(error));
    }
}

/// A decision that this process took is told of the dispatch of its id, or else of the run
/// of the id, or else, where no run has the id, of the latest run of the thread of that
/// id, as a local delivery. Where none is found nothing is told.
pub proof fn lemma_decision_taken_here_is_told(
    steps: Seq<DecisionStep>,
    replies: Seq<DecisionReply>,
    outcome: Result<bool, Fault>,
)
    requires
        is_decision_delivery(steps, replies),
        steps.last() == (DecisionStep::Done { outcome }),
        replies[0] == DecisionReply::Accepted(true),
    ensures
        outcome == Ok::<bool, Fault>(true),
        replies.len() <= 5,
        steps[1] is FindDispatch,
        match replies[1] {
            DecisionReply::Dispatch(Ok(Some(dispatch))) => steps[2] matches DecisionStep::Publish {
                target,
                delivery_path,
            } && delivery_path@ == "local_live"@ && target.thread_id == dispatch.thread_id
                && target.run_id == dispatch.run_id && target.dispatch_id == Some(
                dispatch.dispatch_id,
            ),
            _ => {
                &&& steps[2] is FindRun
                &&& match replies[2] {
                    DecisionReply::Run(Ok(Some(run))) => is_told_locally(steps[3], run),
                    DecisionReply::Run(Ok(None)) => {
                        &&& steps[3] is FindLatest
                        &&& match replies[3] {
                            DecisionReply::Run(Ok(Some(run))) => is_told_locally(steps[4], run),
                            _ => steps[4] is Done,
                        }
                    },
                    _ => steps[3] is Done,
                }
            },
        },
{
    let n = replies.len();
    assert(decision_answers(steps[0], replies[0]));
    if n > 1 {
        assert(decision_answers(steps[1], replies[1]));
    }
    if n > 2 {
        assert(decision_answers(steps[2], replies[2]));
    }
    if n > 3 {
        assert(decision_answers(steps[3], replies[3]));
    }
    if n > 4 {
        assert(decision_answers(steps[4], replies[4]));
    }
    if n > 5 {
        assert(decision_answers(steps[5], replies[5]));
    }
}

/// Whether a step tells of a decision that a run of this process took.
pub open spec fn is_told_locally(step: DecisionStep, run: RunRecord) -> bool {
    step matches DecisionStep::Publish { target, delivery_path } && delivery_path@ == "local_live"@
        && target.thread_id == run.thread_id && target.run_id == run.run_id && target.dispatch_id
        == run.dispatch_id
}

/// A decision takes up the end of its lookups at once, and begins at the thread's own
/// worker, with the command that hands it over as it was made.
pub proof fn lemma_decision_is_handed_over_as_it_was_made(
    step: DecisionStep,
    reply: DecisionReply,
    id: String,
    tool_call_id: String,
    resume: ToolCallResume,
    delivery: DecisionDelivery,
    command: LiveRunCommand,
)
    requires
        decision_answers(step, reply),
        call_ensures(DecisionDelivery::send_decision_live, (id, tool_call_id, resume), delivery),
        call_ensures(DecisionDelivery::command, (&delivery,), command),
    ensures
        next_decision_step(step, reply) matches DecisionStep::Route { route } ==> !(route is Done),
        delivery.id == id,
        delivery.step is SendLocal,
        command matches LiveRunCommand::Decision(decisions) && decisions@.len() == 1
            && decisions@[0].tool_call_id == tool_call_id && decisions@[0].resume == resume,
{
}

} // verus!
