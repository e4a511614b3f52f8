//! The lifecycle of the mailbox: how it is started, and what is done in
//! maintenance.

use vstd::prelude::*;

use crate::dispatch::{RunDispatch, RunDispatchStatus};
use crate::error::{Fault, StorageError};
use crate::mailbox::config::{MailboxConfig, MailboxLifecycleConfig, MailboxStartupRecoveryConfig};
use crate::mailbox::server_event_capture::{
    is_rescheduled_event, record_run_rescheduled_dispatch, EventDraft, EXPIRED_LEASE_RECLAIMED,
};

verus! {

/// How often the start of the lifecycle tries to get hold of its transition.
pub const LIFECYCLE_START_TRIES: usize = 16;

/// What a try to get hold of the lifecycle's transition found.
#[derive(Clone, Copy, Debug, PartialEq, Eq, Structural)]
pub enum TransitionTry {
    /// The transition is ours.
    Acquired,
    /// Another transition is under way; whether the lifecycle is running.
    Held { running: bool },
    /// The state of the lifecycle cannot be read.
    Poisoned,
}

/// What follows a try to start the lifecycle.
#[derive(Debug, PartialEq)]
pub enum StartDecision {
    /// Start the tasks.
    Start,
    /// The lifecycle is running: return its handle.
    AlreadyRunning,
    /// Let others go first, and try again.
    TryAgain { tries: usize },
    /// The lifecycle cannot be started.
    Fail { fault: Fault },
}

/// What follows a try to start the lifecycle, after `tries` tries that were
/// refused. A transition that is never ours leaves the lifecycle as it is.
pub open spec fn start_decision(tries: usize, found: TransitionTry) -> StartDecision {
    match found {
        TransitionTry::Acquired => StartDecision::Start,
        TransitionTry::Poisoned => StartDecision::Fail { fault: Fault::LifecyclePoisoned },
        TransitionTry::Held { running } => if running {
            StartDecision::AlreadyRunning
        } else if tries + 1 < LIFECYCLE_START_TRIES {
            StartDecision::TryAgain { tries: (tries + 1) as usize }
        } else {
            StartDecision::Fail { fault: Fault::LifecycleBusy }
        },
    }
}

/// Decide on the start of the lifecycle, after `tries` tries that were refused.
pub fn start_lifecycle(tries: usize, found: TransitionTry) -> (r: StartDecision)
    requires
        tries < LIFECYCLE_START_TRIES,
    ensures
        r == start_decision(tries, found),
{
    match found {
        TransitionTry::Acquired => StartDecision::Start,
        TransitionTry::Poisoned => StartDecision::Fail { fault: Fault::LifecyclePoisoned },
        TransitionTry::Held { running } => if running {
            StartDecision::AlreadyRunning
        } else if tries + 1 < LIFECYCLE_START_TRIES {
            StartDecision::TryAgain { tries: tries + 1 }
        } else {
            StartDecision::Fail { fault: Fault::LifecycleBusy }
        },
    }
}

/// The tasks of a lifecycle that starts: each waits for the startup delay first.
#[derive(Clone, Copy, Debug, PartialEq, Eq, Structural)]
pub struct LifecycleTasks {
    pub recover: bool,
    pub maintenance: bool,
    pub dispatch_signals: bool,
    pub startup_delay: u64,
    pub startup_recovery: MailboxStartupRecoveryConfig,
    pub has_maintenance_callback: bool,
}

/// Whether the lifecycle runs, from what its lock shows: nothing, where a holder of
/// the lock panicked.
pub fn lifecycle_is_running(tasks: Option<bool>) -> (r: Result<bool, Fault>)
    ensures
        r == (match tasks {
            Some(running) => Ok(running),
            None => Err(Fault::LifecyclePoisoned),
        }),
{
    match tasks {
        Some(running) => Ok(running),
        None => Err(Fault::LifecyclePoisoned),
    }
}

/// The tasks that are to be started.
pub open spec fn tasks_to_start(
    config: MailboxLifecycleConfig,
    running: Option<bool>,
    run_startup_recovery: bool,
    supports_dispatch_signals: bool,
) -> Result<Option<LifecycleTasks>, Fault> {
    match running {
        None => Err(Fault::LifecyclePoisoned),
        Some(is_running) => if is_running {
            Ok(None)
        } else {
            Ok(
                Some(
                    LifecycleTasks {
                        recover: run_startup_recovery,
                        maintenance: true,
                        dispatch_signals: supports_dispatch_signals,
                        startup_delay: config.startup_delay,
                        startup_recovery: config.startup_recovery,
                        has_maintenance_callback: config.has_maintenance_callback,
                    },
                ),
            )
        },
    }
}

/// The tasks that are to be started: none where the lifecycle is running, so that
/// starting it again changes nothing. `running` is not known where the state of
/// the lifecycle cannot be read.
pub fn start_lifecycle_internal(
    config: &MailboxLifecycleConfig,
    running: Option<bool>,
    run_startup_recovery: bool,
    supports_dispatch_signals: bool,
) -> (r: Result<Option<LifecycleTasks>, Fault>)
    ensures
        r == tasks_to_start(*config, running, run_startup_recovery, supports_dispatch_signals),
        r == (match running {
            None => Err(Fault::LifecyclePoisoned),
            Some(is_running) => if is_running {
                Ok(None)
            } else {
                Ok(
                    Some(
                        LifecycleTasks {
                            recover: run_startup_recovery,
                            maintenance: true,
                            dispatch_signals: supports_dispatch_signals,
                            startup_delay: config.startup_delay,
                            startup_recovery: config.startup_recovery,
                            has_maintenance_callback: config.has_maintenance_callback,
                        },
                    ),
                )
            },
        }),
{
    match lifecycle_is_running(running) {
        Err(fault) => Err(fault),
        Ok(true) => Ok(None),
        Ok(false) => Ok(
            Some(
                LifecycleTasks {
                    recover: run_startup_recovery,
                    maintenance: true,
                    dispatch_signals: supports_dispatch_signals,
                    startup_delay: config.startup_delay,
                    startup_recovery: config.startup_recovery,
                    has_maintenance_callback: config.has_maintenance_callback,
                },
            ),
        ),
    }
}

/// The operation that is due in a recovery that is tried again.
#[derive(Debug, PartialEq)]
pub enum StartupStep {
    /// Recover, for the `attempt`-th time.
    Recover { attempt: usize },
    /// Wait before the next attempt.
    Sleep { attempt: usize },
    /// The recovery is over: how many entries were recovered.
    Done { outcome: Result<usize, Fault> },
}

/// The reply to the operation of a step.
#[derive(Debug, PartialEq)]
pub enum StartupReply {
    Recovered(Result<usize, Fault>),
    Performed,
}

/// How often a recovery is tried: at least once.
pub open spec fn startup_attempts(config: MailboxStartupRecoveryConfig) -> usize {
    if config.max_attempts == 0 {
        1
    } else {
        config.max_attempts
    }
}

/// Whether a reply is one that the operation of a step gives.
pub open spec fn startup_answers(
    config: MailboxStartupRecoveryConfig,
    step: StartupStep,
    reply: StartupReply,
) -> bool {
    match step {
        StartupStep::Recover { .. } => reply is Recovered,
        StartupStep::Sleep { attempt } => reply is Performed && attempt < startup_attempts(config),
        StartupStep::Done { .. } => false,
    }
}

/// The step that a reply leads to.
pub open spec fn next_startup_step(
    config: MailboxStartupRecoveryConfig,
    step: StartupStep,
    reply: StartupReply,
) -> StartupStep {
    match (step, reply) {
        (StartupStep::Recover { attempt }, StartupReply::Recovered(result)) => match result {
            Ok(recovered) => StartupStep::Done { outcome: Ok(recovered) },
            Err(fault) => if attempt >= startup_attempts(config) {
                StartupStep::Done { outcome: Err(fault) }
            } else if config.retry_delay > 0 {
                StartupStep::Sleep { attempt }
            } else {
                StartupStep::Recover { attempt: (attempt + 1) as usize }
            },
        },
        (StartupStep::Sleep { attempt }, _) => StartupStep::Recover {
            attempt: (attempt + 1) as usize,
        },
        _ => step,
    }
}

/// Whether a reply is one that the operation of a step gives.
pub fn startup_expects(
    config: &MailboxStartupRecoveryConfig,
    step: &StartupStep,
    reply: &StartupReply,
) -> (r: bool)
    ensures
        r == startup_answers(*config, *step, *reply),
{
    let most: usize = if config.max_attempts == 0 {
        1
    } else {
        config.max_attempts
    };
    match (step, reply) {
        (StartupStep::Recover { .. }, StartupReply::Recovered(_)) => true,
        (StartupStep::Sleep { attempt }, StartupReply::Performed) => *attempt < most,
        _ => false,
    }
}

/// The step that a reply leads to in a recovery that is tried again while it fails.
/// The first step recovers for the first time.
pub fn run_startup_recovery_with_retry(
    config: &MailboxStartupRecoveryConfig,
    step: StartupStep,
    reply: StartupReply,
) -> (r: StartupStep)
    requires
        startup_answers(*config, step, reply),
    ensures
        r == next_startup_step(*config, step, reply),
{
    let most: usize = if config.max_attempts == 0 {
        1
    } else {
        config.max_attempts
    };
    match (step, reply) {
        (StartupStep::Recover { attempt }, StartupReply::Recovered(result)) => match result {
            Ok(recovered) => StartupStep::Done { outcome: Ok(recovered) },
            Err(fault) => if attempt >= most {
                StartupStep::Done { outcome: Err(fault) }
            } else if config.retry_delay > 0 {
                StartupStep::Sleep { attempt }
            } else {
                StartupStep::Recover { attempt: attempt + 1 }
            },
        },
        (StartupStep::Sleep { attempt }, _) => StartupStep::Recover { attempt: attempt + 1 },
        (step, _) => step,
    }
}

/// How many recoveries the steps have tried.
pub open spec fn recoveries_tried(steps: Seq<StartupStep>) -> nat
    decreases steps.len(),
{
    if steps.len() == 0 {
        0
    } else {
        recoveries_tried(steps.drop_last()) + (if steps.last() is Recover {
            1nat
        } else {
            0nat
        })
    }
}

/// A recovery with its retries: the steps that were due and the replies to them.
pub open spec fn is_startup(
    config: MailboxStartupRecoveryConfig,
    steps: Seq<StartupStep>,
    replies: Seq<StartupReply>,
) -> bool {
    &&& steps.len() == replies.len() + 1
    &&& steps[0] == (StartupStep::Recover { attempt: 1 })
    &&& forall|i: int|
        #![trigger replies[i]]
        0 <= i < replies.len() ==> startup_answers(config, steps[i], replies[i]) && steps[i + 1]
            == next_startup_step(config, steps[i], replies[i])
}

/// A recovery is tried at most as often as it is configured to be. It fails only
/// where the last try failed, after all of them.
pub proof fn lemma_startup_recovery_is_bounded(
    config: MailboxStartupRecoveryConfig,
    steps: Seq<StartupStep>,
    replies: Seq<StartupReply>,
    at: int,
)
    requires
        is_startup(config, steps, replies),
        0 <= at < steps.len(),
    ensures
        recoveries_tried(steps.take(at + 1)) <= startup_attempts(config),
        match steps[at] {
            StartupStep::Recover { attempt } => attempt <= startup_attempts(config)
                && recoveries_tried(steps.take(at + 1)) == attempt,
            StartupStep::Sleep { attempt } => attempt < startup_attempts(config)
                && recoveries_tried(steps.take(at + 1)) == attempt,
            StartupStep::Done { outcome } => at > 0 && replies[at - 1]
                == StartupReply::Recovered(outcome) && (outcome is Err ==> recoveries_tried(
                steps.take(at + 1),
            ) == startup_attempts(config)),
        },
    decreases at,
{
    assert(steps.take(at + 1).drop_last() =~= steps.take(at));
    assert(steps.take(at + 1).last() == steps[at]);
    if at == 0 {
        assert(steps.take(0).len() == 0);
    } else {
        lemma_startup_recovery_is_bounded(config, steps, replies, at - 1);
        assert(startup_answers(config, steps[at - 1], replies[at - 1]));
        assert(steps[at] == next_startup_step(config, steps[at - 1], replies[at - 1]));
    }
}

/// The operation that is due in starting the lifecycle to readiness.
#[derive(Debug, PartialEq)]
pub enum ReadyStep {
    /// Look whether the lifecycle is running.
    CheckRunning,
    /// Wait for the startup delay.
    Delay { delay: u64 },
    /// Recover, with retries.
    Recover,
    /// Start the tasks with the configuration, without a recovery.
    StartTasks { config: MailboxLifecycleConfig },
    /// The lifecycle is ready, or cannot be.
    Done { outcome: Result<(), Fault> },
}

/// The reply to the operation of a step.
#[derive(Debug, PartialEq)]
pub enum ReadyReply {
    Running(Option<bool>),
    Performed,
    Recovered(Result<usize, Fault>),
    Started(Result<(), Fault>),
}

/// Whether a reply is one that the operation of a step gives.
pub open spec fn ready_answers(step: ReadyStep, reply: ReadyReply) -> bool {
    match step {
        ReadyStep::CheckRunning => reply is Running,
        ReadyStep::Delay { .. } => reply is Performed,
        ReadyStep::Recover => reply is Recovered,
        ReadyStep::StartTasks { .. } => reply is Started,
        ReadyStep::Done { .. } => false,
    }
}

/// The configuration with the startup delay behind it.
pub open spec fn without_delay(config: MailboxLifecycleConfig) -> MailboxLifecycleConfig {
    MailboxLifecycleConfig { startup_delay: 0, ..config }
}

/// Whether `after` is the step that a reply leads to.
pub open spec fn ready_follows(
    config: MailboxLifecycleConfig,
    step: ReadyStep,
    reply: ReadyReply,
    after: ReadyStep,
) -> bool {
    match (step, reply) {
        (ReadyStep::CheckRunning, ReadyReply::Running(running)) => match running {
            None => after == (ReadyStep::Done { outcome: Err(Fault::LifecyclePoisoned) }),
            Some(is_running) => if is_running {
                after matches ReadyStep::Done { outcome: Ok(_) }
            } else if config.startup_delay > 0 {
                after == (ReadyStep::Delay { delay: config.startup_delay })
            } else {
                after == ReadyStep::Recover
            },
        },
        (ReadyStep::Delay { .. }, _) => after == ReadyStep::Recover,
        (ReadyStep::Recover, ReadyReply::Recovered(result)) => match result {
            Ok(_) => after == (ReadyStep::StartTasks { config: without_delay(config) }),
            Err(fault) => after == (ReadyStep::Done { outcome: Err(fault) }),
        },
        (ReadyStep::StartTasks { .. }, ReadyReply::Started(result)) => after == (ReadyStep::Done {
            outcome: result,
        }),
        _ => false,
    }
}

/// Whether a reply is one that the operation of a step gives.
pub fn ready_expects(step: &ReadyStep, reply: &ReadyReply) -> (r: bool)
    ensures
        r == ready_answers(*step, *reply),
{
    match (step, reply) {
        (ReadyStep::CheckRunning, ReadyReply::Running(_)) => true,
        (ReadyStep::Delay { .. }, ReadyReply::Performed) => true,
        (ReadyStep::Recover, ReadyReply::Recovered(_)) => true,
        (ReadyStep::StartTasks { .. }, ReadyReply::Started(_)) => true,
        _ => false,
    }
}

/// The step that a reply leads to in starting the lifecycle to readiness. A
/// lifecycle that is running is left as it is.
pub fn start_lifecycle_ready(config: &MailboxLifecycleConfig, step: ReadyStep, reply: ReadyReply) -> (r:
    ReadyStep)
    requires
        ready_answers(step, reply),
    ensures
        ready_follows(*config, step, reply, r),
{
    match (step, reply) {
        (ReadyStep::CheckRunning, ReadyReply::Running(running)) => match running {
            None => ReadyStep::Done { outcome: Err(Fault::LifecyclePoisoned) },
            Some(is_running) => if is_running {
                ReadyStep::Done { outcome: Ok(()) }
            } else if config.startup_delay > 0 {
                ReadyStep::Delay { delay: config.startup_delay }
            } else {
                ReadyStep::Recover
            },
        },
        (ReadyStep::Delay { .. }, _) => ReadyStep::Recover,
        (ReadyStep::Recover, ReadyReply::Recovered(result)) => match result {
            Ok(_) => ReadyStep::StartTasks {
                config: MailboxLifecycleConfig { startup_delay: 0, ..*config },
            },
            Err(fault) => ReadyStep::Done { outcome: Err(fault) },
        },
        (ReadyStep::StartTasks { .. }, ReadyReply::Started(result)) => ReadyStep::Done {
            outcome: result,
        },
        (step, _) => step,
    }
}

/// Maintenance tasks are started only behind a recovery that succeeded.
pub proof fn lemma_ready_means_recovered(
    config: MailboxLifecycleConfig,
    step: ReadyStep,
    reply: ReadyReply,
    after: ReadyStep,
)
    requires
        ready_answers(step, reply),
        ready_follows(config, step, reply, after),
        after is StartTasks,
    ensures
        step is Recover,
        reply matches ReadyReply::Recovered(Ok(_)),
{
}

/// The operation that is due in a sweep.
#[derive(Debug, PartialEq)]
pub enum SweepStep {
    /// Reclaim the leases that have expired.
    Reclaim,
    /// Publish that the reclaimed dispatch `at` is rescheduled.
    PublishRescheduled { reclaimed: Vec<RunDispatch>, at: usize },
    /// Reconcile the run of the reclaimed dispatch `at`.
    Reconcile { reclaimed: Vec<RunDispatch>, at: usize },
    /// Let the worker of the reclaimed dispatch `at` take up its next dispatch.
    DispatchThread { reclaimed: Vec<RunDispatch>, at: usize },
    /// Reconcile the runs of the dispatches that have ended.
    ReconcileEnded,
    /// Publish the queued checkpoint events again.
    DrainRepairs,
    /// The sweep is over.
    Done,
}

/// The reply to the operation of a step.
#[derive(Debug, PartialEq)]
pub enum SweepReply {
    Reclaimed(Result<Vec<RunDispatch>, StorageError>),
    Performed,
}

/// Whether a reply is one that the operation of a step gives.
pub open spec fn sweep_answers(step: SweepStep, reply: SweepReply) -> bool {
    match step {
        SweepStep::Reclaim => reply is Reclaimed,
        SweepStep::PublishRescheduled { reclaimed, at } => reply is Performed && at
            < reclaimed@.len(),
        SweepStep::Reconcile { reclaimed, at } => reply is Performed && at < reclaimed@.len(),
        SweepStep::DispatchThread { reclaimed, at } => reply is Performed && at < reclaimed@.len(),
        SweepStep::ReconcileEnded => reply is Performed,
        SweepStep::DrainRepairs => reply is Performed,
        SweepStep::Done => false,
    }
}

/// The step at a reclaimed dispatch, or behind the last.
pub open spec fn at_swept(reclaimed: Vec<RunDispatch>, at: int) -> SweepStep {
    if at < reclaimed@.len() {
        SweepStep::PublishRescheduled { reclaimed, at: at as usize }
    } else {
        SweepStep::ReconcileEnded
    }
}

/// The step that a reply leads to. A sweep that reclaims nothing for a fault of the
/// store still publishes what is queued.
pub open spec fn next_sweep_step(step: SweepStep, reply: SweepReply) -> SweepStep {
    match (step, reply) {
        (SweepStep::Reclaim, SweepReply::Reclaimed(result)) => match result {
            Ok(reclaimed) => at_swept(reclaimed, 0),
            Err(_) => SweepStep::DrainRepairs,
        },
        (SweepStep::PublishRescheduled { reclaimed, at }, _) => SweepStep::Reconcile {
            reclaimed,
            at,
        },
        (SweepStep::Reconcile { reclaimed, at }, _) => if reclaimed@[at as int].status
            == RunDispatchStatus::Queued {
            SweepStep::DispatchThread { reclaimed, at }
        } else {
            at_swept(reclaimed, at + 1)
        },
        (SweepStep::DispatchThread { reclaimed, at }, _) => at_swept(reclaimed, at + 1),
        (SweepStep::ReconcileEnded, _) => SweepStep::DrainRepairs,
        (SweepStep::DrainRepairs, _) => SweepStep::Done,
        _ => step,
    }
}

/// Whether an event is the one that a step of a sweep publishes, where it publishes
/// one.
pub open spec fn is_sweep_event(step: SweepStep, event: Option<EventDraft>) -> bool {
    match step {
        SweepStep::PublishRescheduled { reclaimed, at } => if at < reclaimed@.len() {
            is_rescheduled_event(event, reclaimed@[at as int], EXPIRED_LEASE_RECLAIMED)
        } else {
            event is None
        },
        _ => event is None,
    }
}

/// The event that a step of a sweep publishes, where it publishes one.
pub fn sweep_event(step: &SweepStep) -> (r: Option<EventDraft>)
    ensures
        is_sweep_event(*step, r),
{
    match step {
        SweepStep::PublishRescheduled { reclaimed, at } => if *at < reclaimed.len() {
            record_run_rescheduled_dispatch(&reclaimed[*at], EXPIRED_LEASE_RECLAIMED)
        } else {
            None
        },
        _ => None,
    }
}

/// Whether a reply is one that the operation of a step gives.
pub fn sweep_expects(step: &SweepStep, reply: &SweepReply) -> (r: bool)
    ensures
        r == sweep_answers(*step, *reply),
{
    match (step, reply) {
        (SweepStep::Reclaim, SweepReply::Reclaimed(_)) => true,
        (SweepStep::PublishRescheduled { reclaimed, at }, SweepReply::Performed) => *at
            < reclaimed.len(),
        (SweepStep::Reconcile { reclaimed, at }, SweepReply::Performed) => *at < reclaimed.len(),
        (SweepStep::DispatchThread { reclaimed, at }, SweepReply::Performed) => *at
            < reclaimed.len(),
        (SweepStep::ReconcileEnded, SweepReply::Performed) => true,
        (SweepStep::DrainRepairs, SweepReply::Performed) => true,
        _ => false,
    }
}

fn swept_step(reclaimed: Vec<RunDispatch>, at: usize) -> (r: SweepStep)
    ensures
        r == at_swept(reclaimed, at as int),
{
    if at < reclaimed.len() {
        SweepStep::PublishRescheduled { reclaimed, at }
    } else {
        SweepStep::ReconcileEnded
    }
}

/// The step that a reply leads to in a sweep, which begins with the expired leases.
pub fn run_sweep(step: SweepStep, reply: SweepReply) -> (r: SweepStep)
    requires
        sweep_answers(step, reply),
    ensures
        r == next_sweep_step(step, reply),
{
    match (step, reply) {
        (SweepStep::Reclaim, SweepReply::Reclaimed(result)) => match result {
            Ok(reclaimed) => swept_step(reclaimed, 0),
            Err(_) => SweepStep::DrainRepairs,
        },
        (SweepStep::PublishRescheduled { reclaimed, at }, _) => SweepStep::Reconcile {
            reclaimed,
            at,
        },
        (SweepStep::Reconcile { reclaimed, at }, _) => {
            let count: usize = reclaimed.len();
            assert(at < count);
            if reclaimed[at].status == RunDispatchStatus::Queued {
                SweepStep::DispatchThread { reclaimed, at }
            } else {
                swept_step(reclaimed, at + 1)
            }
        },
        (SweepStep::DispatchThread { reclaimed, at }, _) => {
            let count: usize = reclaimed.len();
            assert(at < count);
            swept_step(reclaimed, at + 1)
        },
        (SweepStep::ReconcileEnded, _) => SweepStep::DrainRepairs,
        (SweepStep::DrainRepairs, _) => SweepStep::Done,
        (step, _) => step,
    }
}

/// The time before which dispatches that have ended are purged.
pub open spec fn purge_time(config: MailboxConfig, now: u64) -> u64 {
    if now >= config.gc_ttl {
        (now - config.gc_ttl) as u64
    } else {
        0
    }
}

/// The time before which dispatches that have ended are purged.
pub fn run_gc(config: &MailboxConfig, now: u64) -> (older_than: u64)
    ensures
        older_than == purge_time(*config, now),
        older_than == (if now >= config.gc_ttl {
            now - config.gc_ttl
        } else {
            0
        }),
{
    now.saturating_sub(config.gc_ttl)
}

/// Whether the store was seen to have nothing queued or claimed for a thread.
pub open spec fn is_seen_empty(open_dispatches: Result<Vec<RunDispatch>, StorageError>) -> bool {
    open_dispatches matches Ok(dispatches) && dispatches@.len() == 0
}

/// Whether the worker of an idle thread may be removed: the store was seen to have
/// nothing queued or claimed for it.
pub fn may_collect(open_dispatches: &Result<Vec<RunDispatch>, StorageError>) -> (r: bool)
    ensures
        r == is_seen_empty(*open_dispatches),
        r == (*open_dispatches matches Ok(dispatches) && dispatches@.len() == 0),
{
    match open_dispatches {
        Ok(dispatches) => dispatches.len() == 0,
        Err(_) => false,
    }
}

/// What a tick of maintenance is for.
#[derive(Clone, Copy, Debug, PartialEq, Eq, Structural)]
pub enum MaintenanceTick {
    Sweep,
    Collect,
}

/// What is to be done on a tick of maintenance, in this order.
#[derive(Clone, Copy, Debug, PartialEq, Eq, Structural)]
pub struct MaintenanceWork {
    pub sweep: bool,
    pub collect: bool,
    pub callback: bool,
}

/// What is to be done on a tick of maintenance.
pub open spec fn work_of(tick: MaintenanceTick, has_callback: bool) -> MaintenanceWork {
    match tick {
        MaintenanceTick::Sweep => MaintenanceWork { sweep: true, collect: false, callback: false },
        MaintenanceTick::Collect => MaintenanceWork {
            sweep: false,
            collect: true,
            callback: has_callback,
        },
    }
}

/// What is to be done on a tick of maintenance. The callback of the application
/// runs behind each collection.
pub fn maintenance_work(tick: MaintenanceTick, has_callback: bool) -> (r: MaintenanceWork)
    ensures
        r == work_of(tick, has_callback),
        r == (match tick {
            MaintenanceTick::Sweep => MaintenanceWork {
                sweep: true,
                collect: false,
                callback: false,
            },
            MaintenanceTick::Collect => MaintenanceWork {
                sweep: false,
                collect: true,
                callback: has_callback,
            },
        }),
{
    match tick {
        MaintenanceTick::Sweep => MaintenanceWork { sweep: true, collect: false, callback: false },
        MaintenanceTick::Collect => MaintenanceWork {
            sweep: false,
            collect: true,
            callback: has_callback,
        },
    }
}

/// The lifecycle is started exactly where its transition is ours. While another one is
/// under way it is tried again, sixteen times in all, unless the lifecycle turns out to
/// be running; and a state that cannot be read is no reason to try again.
pub proof fn lemma_start_waits_for_the_transition(tries: usize, found: TransitionTry)
    requires
        tries < 16,
    ensures
        start_decision(tries, found) is Start <==> found == TransitionTry::Acquired,
        start_decision(tries, found) is AlreadyRunning <==> found == (TransitionTry::Held {
            running: true,
        }),
        start_decision(tries, found) == (StartDecision::Fail { fault: Fault::LifecyclePoisoned })
            <==> found == TransitionTry::Poisoned,
        start_decision(tries, found) == (StartDecision::Fail { fault: Fault::LifecycleBusy })
            <==> found == (TransitionTry::Held { running: false }) && tries == 15,
        found == (TransitionTry::Held { running: false }) && tries < 15 ==> start_decision(
            tries,
            found,
        ) == (StartDecision::TryAgain { tries: (tries + 1) as usize }),
{
}

/// A recovery at startup that succeeds is not tried again; one that fails is tried again
/// until the configured number of attempts is reached, with a wait before each where a
/// delay is configured. Without a configured number it is tried once.
pub proof fn lemma_failed_recovery_is_tried_again(
    config: MailboxStartupRecoveryConfig,
    steps: Seq<StartupStep>,
    replies: Seq<StartupReply>,
    i: int,
    attempt: usize,
)
    requires
        is_startup(config, steps, replies),
        0 <= i < replies.len(),
        steps[i] == (StartupStep::Recover { attempt }),
    ensures
        replies[i] matches StartupReply::Recovered(result) && match result {
            Ok(count) => steps[i + 1] == (StartupStep::Done { outcome: Ok(count) }),
            Err(fault) => if attempt < config.max_attempts {
                if config.retry_delay > 0 {
                    &&& steps[i + 1] == (StartupStep::Sleep { attempt })
                    &&& i + 1 < replies.len() ==> steps[i + 2] == (StartupStep::Recover {
                        attempt: (attempt + 1) as usize,
                    })
                } else {
                    steps[i + 1] == (StartupStep::Recover { attempt: (attempt + 1) as usize })
                }
            } else {
                steps[i + 1] == (StartupStep::Done { outcome: Err(fault) })
            },
        },
{
    lemma_startup_recovery_is_bounded(config, steps, replies, i);
    assert(startup_answers(config, steps[i], replies[i]));
    if i == 0 {
        assert(attempt == 1);
    } else {
        assert(recoveries_tried(steps.take(i + 1)) == attempt);
        lemma_first_recovery_is_counted(steps, i + 1);
    }
    if i + 1 < replies.len() {
        assert(startup_answers(config, steps[i + 1], replies[i + 1]));
    }
}

proof fn lemma_first_recovery_is_counted(steps: Seq<StartupStep>, n: int)
    requires
        1 <= n <= steps.len(),
        steps[0] is Recover,
    ensures
        recoveries_tried(steps.take(n)) >= 1,
    decreases n,
{
    let part = steps.take(n);
    assert(part.last() == steps[n - 1]);
    if n > 1 {
        assert(part.drop_last() =~= steps.take(n - 1));
        lemma_first_recovery_is_counted(steps, n - 1);
    }
}

/// A lifecycle that is not running gets ready by waiting for the startup delay, where
/// there is one, by recovering, and then by starting its tasks, which do not wait again.
/// It is left as it is where it is running, and does not get ready where its state cannot
/// be read or the recovery fails.
pub proof fn lemma_readiness_comes_after_recovery(
    config: MailboxLifecycleConfig,
    step: ReadyStep,
    reply: ReadyReply,
    after: ReadyStep,
)
    requires
        ready_answers(step, reply),
        ready_follows(config, step, reply, after),
    ensures
        step is CheckRunning ==> match reply {
            ReadyReply::Running(Some(true)) => after matches ReadyStep::Done { outcome: Ok(_) },
            ReadyReply::Running(Some(false)) => if config.startup_delay > 0 {
                after == (ReadyStep::Delay { delay: config.startup_delay })
            } else {
                after is Recover
            },
            _ => after == (ReadyStep::Done { outcome: Err(Fault::LifecyclePoisoned) }),
        },
        step is Delay ==> after is Recover,
        step is Recover ==> match reply {
            ReadyReply::Recovered(Err(fault)) => after == (ReadyStep::Done { outcome: Err(fault) }),
            _ => after matches ReadyStep::StartTasks { config: started } && started.startup_delay
                == 0 && started.startup_recovery == config.startup_recovery
                && started.has_maintenance_callback == config.has_maintenance_callback,
        },
        step is StartTasks ==> (reply matches ReadyReply::Started(result) && after == (
        ReadyStep::Done { outcome: result })),
{
}

/// A sweep: the steps that were due and the replies to them.
pub open spec fn is_sweep(steps: Seq<SweepStep>, replies: Seq<SweepReply>) -> bool {
    &&& steps.len() == replies.len() + 1
    &&& steps[0] is Reclaim
    &&& forall|i: int|
        #![trigger replies[i]]
        0 <= i < replies.len() ==> sweep_answers(steps[i], replies[i]) && steps[i + 1]
            == next_sweep_step(steps[i], replies[i])
}

/// How many of the first reclaimed dispatches a sweep takes up: those that are queued
/// again.
pub open spec fn queued_among(reclaimed: Seq<RunDispatch>, n: int) -> int
    decreases n,
{
    if n <= 0 {
        0
    } else {
        queued_among(reclaimed, n - 1) + (if reclaimed[n - 1].status == RunDispatchStatus::Queued {
            1int
        } else {
            0int
        })
    }
}

/// Where a sweep is once it has `k` of the reclaimed dispatches behind it.
pub open spec fn place_of(reclaimed: Seq<RunDispatch>, k: int) -> int {
    1 + 2 * k + queued_among(reclaimed, k)
}

proof fn lemma_sweep_is_at(
    steps: Seq<SweepStep>,
    replies: Seq<SweepReply>,
    reclaimed: Vec<RunDispatch>,
    k: int,
)
    requires
        is_sweep(steps, replies),
        replies.len() > 0,
        replies[0] == SweepReply::Reclaimed(Ok(reclaimed)),
        0 <= k <= reclaimed@.len(),
        place_of(reclaimed@, k) < steps.len(),
    ensures
        queued_among(reclaimed@, k) >= 0,
        k < reclaimed@.len() ==> (steps[place_of(reclaimed@, k)]
            matches SweepStep::PublishRescheduled { reclaimed: of, at } && of == reclaimed && at
            == k),
        k == reclaimed@.len() ==> steps[place_of(reclaimed@, k)] is ReconcileEnded,
    decreases k,
{
    let count: usize = reclaimed.len();
    assert(count == reclaimed@.len());
    lemma_queued_among(reclaimed@, k);
    if k == 0 {
        assert(sweep_answers(steps[0], replies[0]));
    } else {
        lemma_queued_among(reclaimed@, k - 1);
        let before = place_of(reclaimed@, k - 1);
        lemma_sweep_is_at(steps, replies, reclaimed, k - 1);
        assert(sweep_answers(steps[before], replies[before]));
        assert(sweep_answers(steps[before + 1], replies[before + 1]));
        if reclaimed@[k - 1].status == RunDispatchStatus::Queued {
            assert(sweep_answers(steps[before + 2], replies[before + 2]));
        }
    }
}

proof fn lemma_queued_among(reclaimed: Seq<RunDispatch>, n: int)
    ensures
        queued_among(reclaimed, n) >= 0,
    decreases n,
{
    if n > 0 {
        lemma_queued_among(reclaimed, n - 1);
    }
}

/// A sweep tells of each dispatch that it reclaimed and reconciles its run, in order, and
/// lets the worker of its thread take it up where it is queued again and not otherwise.
/// Then it reconciles the dispatches that have ended, and publishes the queued events
/// again, which it does also where nothing could be reclaimed.
pub proof fn lemma_sweep_covers_what_it_reclaimed(
    steps: Seq<SweepStep>,
    replies: Seq<SweepReply>,
    k: int,
)
    requires
        is_sweep(steps, replies),
        steps.last() is Done,
    ensures
        replies[0] matches SweepReply::Reclaimed(result) && match result {
            Err(_) => steps.len() == 3 && steps[1] is DrainRepairs,
            Ok(reclaimed) => {
                let end = place_of(reclaimed@, reclaimed@.len() as int);
                &&& steps.len() == end + 3
                &&& steps[end] is ReconcileEnded
                &&& steps[end + 1] is DrainRepairs
                &&& 0 <= k < reclaimed@.len() ==> {
                    let at = place_of(reclaimed@, k);
                    &&& 0 < at < end
                    &&& steps[at] matches SweepStep::PublishRescheduled { reclaimed: of, at: j }
                        && of == reclaimed && j == k
                    &&& steps[at + 1] matches SweepStep::Reconcile { reclaimed: of, at: j } && of
                        == reclaimed && j == k
                    &&& reclaimed@[k].status == RunDispatchStatus::Queued <==> (
                    steps[at + 2] matches SweepStep::DispatchThread { reclaimed: of, at: j } && of
                        == reclaimed && j == k)
                }
            },
        },
{
    assert(replies.len() > 0);
    assert(sweep_answers(steps[0], replies[0]));
    if let SweepReply::Reclaimed(Ok(reclaimed)) = replies[0] {
        let count: usize = reclaimed.len();
        assert(count == reclaimed@.len());
        let n = reclaimed@.len() as int;
        lemma_sweep_reaches(steps, replies, reclaimed, n);
        lemma_sweep_is_at(steps, replies, reclaimed, n);
        let end = place_of(reclaimed@, n);
        assert(sweep_answers(steps[end], replies[end]));
        assert(sweep_answers(steps[end + 1], replies[end + 1]));
        if end + 2 < replies.len() {
            assert(sweep_answers(steps[end + 2], replies[end + 2]));
        }
        if 0 <= k < n {
            lemma_sweep_reaches(steps, replies, reclaimed, k);
            lemma_sweep_is_at(steps, replies, reclaimed, k);
            lemma_queued_among(reclaimed@, k);
            let at = place_of(reclaimed@, k);
            lemma_sweep_reaches(steps, replies, reclaimed, k + 1);
            lemma_sweep_is_at(steps, replies, reclaimed, k + 1);
            lemma_places_grow(reclaimed@, k, n);
            assert(sweep_answers(steps[at], replies[at]));
            assert(sweep_answers(steps[at + 1], replies[at + 1]));
        }
    } else {
        assert(sweep_answers(steps[1], replies[1]));
        if replies.len() > 2 {
            assert(sweep_answers(steps[2], replies[2]));
        }
    }
}

proof fn lemma_places_grow(reclaimed: Seq<RunDispatch>, k: int, n: int)
    requires
        0 <= k < n,
    ensures
        place_of(reclaimed, k) + 2 <= place_of(reclaimed, n),
    decreases n - k,
{
    lemma_queued_among(reclaimed, k);
    if k + 1 < n {
        lemma_places_grow(reclaimed, k + 1, n);
    }
}

proof fn lemma_sweep_reaches(
    steps: Seq<SweepStep>,
    replies: Seq<SweepReply>,
    reclaimed: Vec<RunDispatch>,
    k: int,
)
    requires
        is_sweep(steps, replies),
        steps.last() is Done,
        replies.len() > 0,
        replies[0] == SweepReply::Reclaimed(Ok(reclaimed)),
        0 <= k <= reclaimed@.len(),
    ensures
        place_of(reclaimed@, k) < replies.len(),
    decreases k,
{
    let count: usize = reclaimed.len();
    assert(count == reclaimed@.len());
    assert(sweep_answers(steps[0], replies[0]));
    lemma_queued_among(reclaimed@, k);
    if k == 0 {
        lemma_sweep_is_at(steps, replies, reclaimed, 0);
    } else {
        lemma_sweep_reaches(steps, replies, reclaimed, k - 1);
        lemma_sweep_is_at(steps, replies, reclaimed, k - 1);
        lemma_queued_among(reclaimed@, k - 1);
        let before = place_of(reclaimed@, k - 1);
        assert(sweep_answers(steps[before], replies[before]));
        assert(before + 1 < replies.len());
        assert(sweep_answers(steps[before + 1], replies[before + 1]));
        if reclaimed@[k - 1].status == RunDispatchStatus::Queued {
            assert(before + 2 < replies.len());
            assert(sweep_answers(steps[before + 2], replies[before + 2]));
        }
        lemma_sweep_is_at(steps, replies, reclaimed, k);
    }
}

/// A dispatch that has ended is kept for the configured time, to the moment, and nothing
/// is purged before that time can have passed.
pub proof fn lemma_purge_keeps_what_is_young(config: MailboxConfig, now: u64)
    ensures
        config.gc_ttl <= now ==> purge_time(config, now) + config.gc_ttl == now,
        now <= config.gc_ttl ==> purge_time(config, now) == 0,
{
}

/// The worker of a thread is kept where the store shows a dispatch for it, and where what
/// the store has is not known.
pub proof fn lemma_worker_is_kept_while_in_doubt(
    open_dispatches: Result<Vec<RunDispatch>, StorageError>,
)
    ensures
        open_dispatches is Err ==> !is_seen_empty(open_dispatches),
        open_dispatches matches Ok(dispatches) ==> (is_seen_empty(open_dispatches)
            <==> dispatches@.len() == 0),
{
}

/// Starting a lifecycle that runs changes nothing, and one whose state cannot be read is
/// not started. One that does not run gets its maintenance, the recovery that was asked
/// for, signals where the backend has them, and the configured delay.
pub proof fn lemma_lifecycle_is_started_once(
    config: MailboxLifecycleConfig,
    running: Option<bool>,
    recovery: bool,
    signals: bool,
)
    ensures
        running == Some(true) ==> tasks_to_start(config, running, recovery, signals) == Ok::<
            Option<LifecycleTasks>,
            Fault,
        >(None),
        running is None ==> tasks_to_start(config, running, recovery, signals) == Err::<
            Option<LifecycleTasks>,
            Fault,
        >(Fault::LifecyclePoisoned),
        running == Some(false) ==> (tasks_to_start(config, running, recovery, signals) matches Ok(
            Some(tasks),
        ) && tasks.maintenance && tasks.recover == recovery && tasks.dispatch_signals == signals
            && tasks.startup_delay == config.startup_delay && tasks.startup_recovery
            == config.startup_recovery && tasks.has_maintenance_callback
            == config.has_maintenance_callback),
{
}

/// A tick of maintenance either sweeps or collects, and the callback of the application
/// runs with a collection, where there is one.
pub proof fn lemma_ticks_share_the_work(tick: MaintenanceTick, has_callback: bool)
    ensures
        work_of(tick, has_callback).sweep <==> tick == MaintenanceTick::Sweep,
        work_of(tick, has_callback).collect <==> tick == MaintenanceTick::Collect,
        work_of(tick, has_callback).callback <==> tick == MaintenanceTick::Collect && has_callback,
{
}

/// Whether the lifecycle runs is what its tasks say; tasks that cannot be read are a fault.
pub proof fn lemma_lifecycle_runs_where_its_tasks_do(
    running: bool,
    found: Result<bool, Fault>,
    lost: Result<bool, Fault>,
)
    requires
        call_ensures(lifecycle_is_running, (Some(running),), found),
        call_ensures(lifecycle_is_running, (None,), lost),
    ensures
        found == Ok::<bool, Fault>(running),
        lost == Err::<bool, Fault>(Fault::LifecyclePoisoned),
{
}

} // verus!
