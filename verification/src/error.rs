//! What an operation of the mailbox is refused for, and how it is reported.

use vstd::prelude::*;

use crate::delivery::{boundary_name, name_of_boundary, DeliveryBoundary};
use crate::text::{decimal, decimal_text, join2, join3, join4, join5, join7};

verus! {

/// How often a committed append is tried before it is given up.
pub const MAX_APPEND_ATTEMPTS: usize = 8;

/// How often a freeze of pending messages is tried before it is given up.
pub const MAX_PENDING_FREEZE_ATTEMPTS: usize = 8;

/// The message of a submit that is refused because a run is active.
pub const ACTIVE_RUN_CONFLICT_MESSAGE: &'static str =
    "thread has an active run that could not be cancelled";

/// What a resolution that failed was for.
pub const RESOLUTION_CONTEXT: &'static str =
    "resolving persistent mailbox dispatch to a replayable run";

/// An error of a store.
#[derive(Debug, PartialEq)]
pub enum StorageError {
    NotFound(String),
    AlreadyExists(String),
    VersionConflict { expected: u64, actual: u64 },
    PendingSelectionConflict { detail: String },
    Validation(String),
    Other(String),
}

impl StorageError {
    /// The error in words.
    pub open spec fn text(self) -> Seq<char> {
        match self {
            StorageError::NotFound(id) => "not found: "@ + id@,
            StorageError::AlreadyExists(id) => "already exists: "@ + id@,
            StorageError::VersionConflict { expected, actual } => "version conflict: expected "@
                + decimal(expected as nat) + ", actual "@ + decimal(actual as nat),
            StorageError::PendingSelectionConflict { detail } => "pending selection conflict: "@
                + detail@,
            StorageError::Validation(message) => "validation: "@ + message@,
            StorageError::Other(message) => message@,
        }
    }

    /// The error in words.
    pub fn to_text(&self) -> (r: String)
        ensures
            r@ == self.text(),
    {
        match self {
            StorageError::NotFound(id) => join2("not found: ", id.as_str()),
            StorageError::AlreadyExists(id) => join2("already exists: ", id.as_str()),
            StorageError::VersionConflict { expected, actual } => join4(
                "version conflict: expected ",
                decimal_text(*expected).as_str(),
                ", actual ",
                decimal_text(*actual).as_str(),
            ),
            StorageError::PendingSelectionConflict { detail } => join2(
                "pending selection conflict: ",
                detail.as_str(),
            ),
            StorageError::Validation(message) => join2("validation: ", message.as_str()),
            StorageError::Other(message) => message.clone(),
        }
    }

    /// Whether a write met a store that had moved on, so that trying again from
    /// what is there now makes sense.
    pub open spec fn conflict(self) -> bool {
        self is VersionConflict || self is PendingSelectionConflict
    }

    /// Whether a write met a store that had moved on.
    pub fn is_conflict(&self) -> (r: bool)
        ensures
            r == self.conflict(),
    {
        match self {
            StorageError::VersionConflict { .. } => true,
            StorageError::PendingSelectionConflict { .. } => true,
            _ => false,
        }
    }
}

impl Clone for StorageError {
    fn clone(&self) -> (r: Self)
        ensures
            r == *self,
    {
        match self {
            StorageError::NotFound(id) => StorageError::NotFound(id.clone()),
            StorageError::AlreadyExists(id) => StorageError::AlreadyExists(id.clone()),
            StorageError::VersionConflict { expected, actual } => StorageError::VersionConflict {
                expected: *expected,
                actual: *actual,
            },
            StorageError::PendingSelectionConflict { detail } =>
            StorageError::PendingSelectionConflict { detail: detail.clone() },
            StorageError::Validation(message) => StorageError::Validation(message.clone()),
            StorageError::Other(message) => StorageError::Other(message.clone()),
        }
    }
}

/// An error of the mailbox, as callers see it.
#[derive(Debug, PartialEq)]
pub enum MailboxError {
    Validation(String),
    Internal(String),
    Store(StorageError),
    Resolution { context: &'static str, source: String },
    DeliveryBlockedByBarrier { blocking_pending_id: String },
}

impl MailboxError {
    /// The error in words.
    pub open spec fn text(self) -> Seq<char> {
        match self {
            MailboxError::Validation(message) => "validation error: "@ + message@,
            MailboxError::Internal(message) => "internal error: "@ + message@,
            MailboxError::Store(error) => "store error: "@ + error.text(),
            MailboxError::Resolution { context, source } => "resolution error: "@ + context@
                + ": "@ + source@,
            MailboxError::DeliveryBlockedByBarrier { blocking_pending_id } =>
            "delivery blocked by pending barrier '"@ + blocking_pending_id@ + "'"@,
        }
    }

    /// The error in words.
    pub fn to_text(&self) -> (r: String)
        ensures
            r@ == self.text(),
    {
        match self {
            MailboxError::Validation(message) => join2("validation error: ", message.as_str()),
            MailboxError::Internal(message) => join2("internal error: ", message.as_str()),
            MailboxError::Store(error) => join2("store error: ", error.to_text().as_str()),
            MailboxError::Resolution { context, source } => join4(
                "resolution error: ",
                context,
                ": ",
                source.as_str(),
            ),
            MailboxError::DeliveryBlockedByBarrier { blocking_pending_id } => join3(
                "delivery blocked by pending barrier '",
                blocking_pending_id.as_str(),
                "'",
            ),
        }
    }
}

impl From<StorageError> for MailboxError {
    fn from(error: StorageError) -> (r: MailboxError) {
        MailboxError::Store(error)
    }
}

impl vstd::std_specs::convert::FromSpecImpl<StorageError> for MailboxError {
    open spec fn obeys_from_spec() -> bool {
        true
    }

    open spec fn from_spec(error: StorageError) -> MailboxError {
        MailboxError::Store(error)
    }
}

/// Why an operation of the mailbox is refused or fails.
#[derive(Debug, PartialEq)]
pub enum Fault {
    Store(StorageError),
    Resolution { source: String },
    DeliveryBlockedByBarrier { blocking_pending_id: String },
    NoMessages,
    ActiveRunConflict,
    RunOfOtherThread { run_id: String, owner: String, thread_id: String },
    RunNotOpen { run_id: String },
    DispatchRunMissing { run_id: String, dispatch_id: String },
    DispatchThreadMismatch { run_id: String, run_thread: String, dispatch_thread: String },
    NoActivationSnapshot { run_id: String },
    RunMessageMissing { message_id: String, run_id: String },
    CorruptExtras { error: String },
    LegacyConversion { error: String },
    CommitCoordinatorMissing,
    StagedCoordinatorMissing,
    OriginInvalid { error: String },
    RunIdMissing,
    ClaimTokenMissing { dispatch_id: String },
    PendingStoreMissing,
    NothingToFreeze { boundary: DeliveryBoundary, thread_id: String },
    FreezeRetriesExhausted { boundary: DeliveryBoundary, thread_id: String },
    PendingWithoutMessageId { pending_id: String },
    AppendRetriesExhausted { thread_id: String },
    TerminalRetriesExhausted { thread_id: String },
    CommitFailed { error: String },
    CheckpointRange { first: u64, last: u64, thread_id: String, run_id: String, count: u64 },
    CheckpointMessageId { seq: u64, thread_id: String, run_id: String },
    EventNotRecorded { what: &'static str, error: String },
    LifecyclePoisoned,
    LifecycleBusy,
}

/// The form in which a fault is reported.
#[derive(Clone, Copy, Debug, PartialEq, Eq, Structural)]
pub enum FaultKind {
    Validation,
    Internal,
    Store,
    Resolution,
    Blocked,
}

impl Fault {
    /// The form in which this fault is reported.
    pub open spec fn kind(self) -> FaultKind {
        match self {
            Fault::Store(_) => FaultKind::Store,
            Fault::Resolution { .. } => FaultKind::Resolution,
            Fault::DeliveryBlockedByBarrier { .. } => FaultKind::Blocked,
            Fault::NoMessages
            | Fault::ActiveRunConflict
            | Fault::RunOfOtherThread { .. }
            | Fault::RunNotOpen { .. }
            | Fault::DispatchRunMissing { .. }
            | Fault::DispatchThreadMismatch { .. }
            | Fault::NoActivationSnapshot { .. }
            | Fault::RunMessageMissing { .. }
            | Fault::CorruptExtras { .. }
            | Fault::LegacyConversion { .. }
            | Fault::CommitCoordinatorMissing
            | Fault::StagedCoordinatorMissing
            | Fault::OriginInvalid { .. } => FaultKind::Validation,
            _ => FaultKind::Internal,
        }
    }

    /// What a validation or internal error says of this fault.
    pub open spec fn detail(self) -> Seq<char> {
        match self {
            Fault::NoMessages => "at least one message is required"@,
            Fault::ActiveRunConflict => ACTIVE_RUN_CONFLICT_MESSAGE@,
            Fault::RunOfOtherThread { run_id, owner, thread_id } => "run_id '"@ + run_id@
                + "' belongs to thread '"@ + owner@ + "', not '"@ + thread_id@ + "'"@,
            Fault::RunNotOpen { run_id } => "run_id '"@ + run_id@ + "' is not open for dispatch"@,
            Fault::DispatchRunMissing { run_id, dispatch_id } => "run '"@ + run_id@
                + "' not found for dispatch '"@ + dispatch_id@ + "'"@,
            Fault::DispatchThreadMismatch { run_id, run_thread, dispatch_thread } => "run '"@
                + run_id@ + "' belongs to thread '"@ + run_thread@ + "', not dispatch thread '"@
                + dispatch_thread@ + "'"@,
            Fault::NoActivationSnapshot { run_id } => "run '"@ + run_id@
                + "' has no activation snapshot"@,
            Fault::RunMessageMissing { message_id, run_id } => "message '"@ + message_id@
                + "' not found for run '"@ + run_id@ + "'"@,
            Fault::CorruptExtras { error } => "corrupt request_extras: "@ + error@,
            Fault::LegacyConversion { error } => "legacy run snapshot conversion failed: "@
                + error@,
            Fault::CommitCoordinatorMissing =>
            "runtime event capture requires an executor with CommitCoordinator"@,
            Fault::StagedCoordinatorMissing =>
            "runtime event capture requires an executor with StagedCommitCoordinator"@,
            Fault::OriginInvalid { error } => error@,
            Fault::RunIdMissing => "run_id missing after preparation"@,
            Fault::ClaimTokenMissing { dispatch_id } => "claimed dispatch '"@ + dispatch_id@
                + "' is missing claim token"@,
            Fault::PendingStoreMissing =>
            "pending thread-run store is not configured for this mailbox"@,
            Fault::NothingToFreeze { boundary, thread_id } => "pending "@ + name_of_boundary(
                boundary,
            )@ + " freeze found no eligible messages for thread '"@ + thread_id@ + "'"@,
            Fault::FreezeRetriesExhausted { boundary, thread_id } => "pending "@
                + name_of_boundary(boundary)@ + " freeze exhausted "@ + decimal(
                MAX_PENDING_FREEZE_ATTEMPTS as nat,
            ) + " retries under version conflict for thread '"@ + thread_id@ + "'"@,
            Fault::PendingWithoutMessageId { pending_id } => "pending message '"@ + pending_id@
                + "' has no message id"@,
            Fault::AppendRetriesExhausted { thread_id } => "committed append exhausted "@
                + decimal(MAX_APPEND_ATTEMPTS as nat)
                + " retries under version conflict for thread '"@ + thread_id@ + "'"@,
            Fault::TerminalRetriesExhausted { thread_id } =>
            "terminal dispatch run checkpoint exhausted "@ + decimal(MAX_APPEND_ATTEMPTS as nat)
                + " retries under version conflict for thread '"@ + thread_id@ + "'"@,
            Fault::CommitFailed { error } => "commit checkpoint: "@ + error@,
            Fault::CheckpointRange { first, last, thread_id, run_id, count } =>
            "checkpoint event range "@ + decimal(first as nat) + "-"@ + decimal(last as nat)
                + " for thread '"@ + thread_id@ + "' run '"@ + run_id@
                + "' exceeds committed message count "@ + decimal(count as nat),
            Fault::CheckpointMessageId { seq, thread_id, run_id } =>
            "checkpoint event message seq "@ + decimal(seq as nat) + " for thread '"@ + thread_id@
                + "' run '"@ + run_id@ + "' is missing message id"@,
            Fault::EventNotRecorded { what, error } => "failed to record "@ + what@ + ": "@ + error@,
            Fault::LifecyclePoisoned => "mailbox lifecycle lock poisoned"@,
            Fault::LifecycleBusy => "mailbox lifecycle transition is already running"@,
            Fault::Store(error) => error.text(),
            Fault::Resolution { source } => source@,
            Fault::DeliveryBlockedByBarrier { blocking_pending_id } => blocking_pending_id@,
        }
    }

    /// Whether `error` is how this fault is reported.
    pub open spec fn reported_as(self, error: MailboxError) -> bool {
        match self.kind() {
            FaultKind::Validation => error matches MailboxError::Validation(m) && m@
                == self.detail(),
            FaultKind::Internal => error matches MailboxError::Internal(m) && m@ == self.detail(),
            FaultKind::Store => self matches Fault::Store(e) && error == MailboxError::Store(e),
            FaultKind::Resolution => self matches Fault::Resolution { source } && error
                == (MailboxError::Resolution { context: RESOLUTION_CONTEXT, source }),
            FaultKind::Blocked => self matches Fault::DeliveryBlockedByBarrier {
                blocking_pending_id,
            } && error == (MailboxError::DeliveryBlockedByBarrier { blocking_pending_id }),
        }
    }

    /// The form in which this fault is reported.
    pub fn kind_of(&self) -> (r: FaultKind)
        ensures
            r == self.kind(),
    {
        match self {
            Fault::Store(_) => FaultKind::Store,
            Fault::Resolution { .. } => FaultKind::Resolution,
            Fault::DeliveryBlockedByBarrier { .. } => FaultKind::Blocked,
            Fault::NoMessages
            | Fault::ActiveRunConflict
            | Fault::RunOfOtherThread { .. }
            | Fault::RunNotOpen { .. }
            | Fault::DispatchRunMissing { .. }
            | Fault::DispatchThreadMismatch { .. }
            | Fault::NoActivationSnapshot { .. }
            | Fault::RunMessageMissing { .. }
            | Fault::CorruptExtras { .. }
            | Fault::LegacyConversion { .. }
            | Fault::CommitCoordinatorMissing
            | Fault::StagedCoordinatorMissing
            | Fault::OriginInvalid { .. } => FaultKind::Validation,
            _ => FaultKind::Internal,
        }
    }

    /// What a validation or internal error says of this fault.
    pub fn detail_text(&self) -> (r: String)
        ensures
            r@ == self.detail(),
    {
        match self {
            Fault::NoMessages => "at least one message is required".to_owned(),
            Fault::ActiveRunConflict => ACTIVE_RUN_CONFLICT_MESSAGE.to_owned(),
            Fault::RunOfOtherThread { run_id, owner, thread_id } => join7(
                "run_id '",
                run_id.as_str(),
                "' belongs to thread '",
                owner.as_str(),
                "', not '",
                thread_id.as_str(),
                "'",
            ),
            Fault::RunNotOpen { run_id } => join3(
                "run_id '",
                run_id.as_str(),
                "' is not open for dispatch",
            ),
            Fault::DispatchRunMissing { run_id, dispatch_id } => join5(
                "run '",
                run_id.as_str(),
                "' not found for dispatch '",
                dispatch_id.as_str(),
                "'",
            ),
            Fault::DispatchThreadMismatch { run_id, run_thread, dispatch_thread } => join7(
                "run '",
                run_id.as_str(),
                "' belongs to thread '",
                run_thread.as_str(),
                "', not dispatch thread '",
                dispatch_thread.as_str(),
                "'",
            ),
            Fault::NoActivationSnapshot { run_id } => join3(
                "run '",
                run_id.as_str(),
                "' has no activation snapshot",
            ),
            Fault::RunMessageMissing { message_id, run_id } => join5(
                "message '",
                message_id.as_str(),
                "' not found for run '",
                run_id.as_str(),
                "'",
            ),
            Fault::CorruptExtras { error } => join2("corrupt request_extras: ", error.as_str()),
            Fault::LegacyConversion { error } => join2(
                "legacy run snapshot conversion failed: ",
                error.as_str(),
            ),
            Fault::CommitCoordinatorMissing =>
            "runtime event capture requires an executor with CommitCoordinator".to_owned(),
            Fault::StagedCoordinatorMissing =>
            "runtime event capture requires an executor with StagedCommitCoordinator".to_owned(),
            Fault::OriginInvalid { error } => error.clone(),
            Fault::RunIdMissing => "run_id missing after preparation".to_owned(),
            Fault::ClaimTokenMissing { dispatch_id } => join3(
                "claimed dispatch '",
                dispatch_id.as_str(),
                "' is missing claim token",
            ),
            Fault::PendingStoreMissing =>
            "pending thread-run store is not configured for this mailbox".to_owned(),
            Fault::NothingToFreeze { boundary, thread_id } => join5(
                "pending ",
                boundary_name(*boundary),
                " freeze found no eligible messages for thread '",
                thread_id.as_str(),
                "'",
            ),
            Fault::FreezeRetriesExhausted { boundary, thread_id } => join7(
                "pending ",
                boundary_name(*boundary),
                " freeze exhausted ",
                decimal_text(MAX_PENDING_FREEZE_ATTEMPTS as u64).as_str(),
                " retries under version conflict for thread '",
                thread_id.as_str(),
                "'",
            ),
            Fault::PendingWithoutMessageId { pending_id } => join3(
                "pending message '",
                pending_id.as_str(),
                "' has no message id",
            ),
            Fault::AppendRetriesExhausted { thread_id } => join5(
                "committed append exhausted ",
                decimal_text(MAX_APPEND_ATTEMPTS as u64).as_str(),
                " retries under version conflict for thread '",
                thread_id.as_str(),
                "'",
            ),
            Fault::TerminalRetriesExhausted { thread_id } => join5(
                "terminal dispatch run checkpoint exhausted ",
                decimal_text(MAX_APPEND_ATTEMPTS as u64).as_str(),
                " retries under version conflict for thread '",
                thread_id.as_str(),
                "'",
            ),
            Fault::CommitFailed { error } => join2("commit checkpoint: ", error.as_str()),
            Fault::CheckpointRange { first, last, thread_id, run_id, count } => {
                let head = join7(
                    "checkpoint event range ",
                    decimal_text(*first).as_str(),
                    "-",
                    decimal_text(*last).as_str(),
                    " for thread '",
                    thread_id.as_str(),
                    "' run '",
                );
                let mut s = head;
                s.append(run_id.as_str());
                s.append("' exceeds committed message count ");
                s.append(decimal_text(*count).as_str());
                s
            },
            Fault::CheckpointMessageId { seq, thread_id, run_id } => join7(
                "checkpoint event message seq ",
                decimal_text(*seq).as_str(),
                " for thread '",
                thread_id.as_str(),
                "' run '",
                run_id.as_str(),
                "' is missing message id",
            ),
            Fault::EventNotRecorded { what, error } => join4(
                "failed to record ",
                what,
                ": ",
                error.as_str(),
            ),
            Fault::LifecyclePoisoned => "mailbox lifecycle lock poisoned".to_owned(),
            Fault::LifecycleBusy => "mailbox lifecycle transition is already running".to_owned(),
            Fault::Store(error) => error.to_text(),
            Fault::Resolution { source } => source.clone(),
            Fault::DeliveryBlockedByBarrier { blocking_pending_id } => blocking_pending_id.clone(),
        }
    }

    /// The error that reports this fault.
    pub fn to_error(self) -> (r: MailboxError)
        ensures
            self.reported_as(r),
    {
        match self {
            Fault::Store(error) => MailboxError::Store(error),
            Fault::Resolution { source } => MailboxError::Resolution {
                context: RESOLUTION_CONTEXT,
                source,
            },
            Fault::DeliveryBlockedByBarrier { blocking_pending_id } =>
            MailboxError::DeliveryBlockedByBarrier { blocking_pending_id },
            other => {
                let detail = other.detail_text();
                match other.kind_of() {
                    FaultKind::Validation => MailboxError::Validation(detail),
                    _ => MailboxError::Internal(detail),
                }
            },
        }
    }
}

/// A write is worth trying again exactly where the store had moved on: its version, or
/// what was selected in it, is no longer what the write went by.
pub proof fn lemma_only_conflicts_are_tried_again(error: StorageError)
    ensures
        error.conflict() == match error {
            StorageError::VersionConflict { .. } => true,
            StorageError::PendingSelectionConflict { .. } => true,
            StorageError::NotFound(_) => false,
            StorageError::AlreadyExists(_) => false,
            StorageError::Validation(_) => false,
            StorageError::Other(_) => false,
        },
{
}

/// A caller sees a fault of the store, of a resolution and of a barrier as such. A
/// request that cannot be served as it is, is reported as not valid; all else is
/// internal.
pub proof fn lemma_faults_are_reported_by_their_cause(fault: Fault, error: MailboxError)
    requires
        fault.reported_as(error),
    ensures
        fault matches Fault::Store(cause) ==> error == MailboxError::Store(cause),
        fault matches Fault::Resolution { source } ==> (error matches MailboxError::Resolution {
            context,
            source: reported,
        } && reported == source && context@
            == "resolving persistent mailbox dispatch to a replayable run"@),
        fault matches Fault::DeliveryBlockedByBarrier { blocking_pending_id } ==> error == (
        MailboxError::DeliveryBlockedByBarrier { blocking_pending_id }),
        fault is NoMessages || fault is ActiveRunConflict || fault is RunOfOtherThread || fault
            is RunNotOpen || fault is DispatchRunMissing || fault is DispatchThreadMismatch || fault
            is NoActivationSnapshot || fault is RunMessageMissing || fault is CorruptExtras || fault
            is LegacyConversion || fault is CommitCoordinatorMissing || fault
            is StagedCoordinatorMissing || fault is OriginInvalid <==> error is Validation,
        fault is RunIdMissing || fault is ClaimTokenMissing || fault is PendingStoreMissing || fault
            is NothingToFreeze || fault is FreezeRetriesExhausted || fault
            is PendingWithoutMessageId || fault is AppendRetriesExhausted || fault
            is TerminalRetriesExhausted || fault is CommitFailed || fault is CheckpointRange || fault
            is CheckpointMessageId || fault is EventNotRecorded || fault is LifecyclePoisoned
            || fault is LifecycleBusy <==> error is Internal,
{
}

/// A request that is refused is told why: that it has no message, that a run is under
/// way, or which run is of another thread or not open.
pub proof fn lemma_refusals_tell_why(run_id: String, owner: String, thread_id: String)
    ensures
        Fault::NoMessages.detail() == "at least one message is required"@,
        Fault::ActiveRunConflict.detail()
            == "thread has an active run that could not be cancelled"@,
        (Fault::RunOfOtherThread { run_id, owner, thread_id }).detail() == "run_id '"@ + run_id@
            + "' belongs to thread '"@ + owner@ + "', not '"@ + thread_id@ + "'"@,
        (Fault::RunNotOpen { run_id }).detail() == "run_id '"@ + run_id@
            + "' is not open for dispatch"@,
        (Fault::DispatchRunMissing { run_id, dispatch_id: owner }).detail() == "run '"@ + run_id@
            + "' not found for dispatch '"@ + owner@ + "'"@,
        (Fault::NoActivationSnapshot { run_id }).detail() == "run '"@ + run_id@
            + "' has no activation snapshot"@,
        (Fault::RunMessageMissing { message_id: owner, run_id }).detail() == "message '"@ + owner@
            + "' not found for run '"@ + run_id@ + "'"@,
        (Fault::CommitFailed { error: owner }).detail() == "commit checkpoint: "@ + owner@,
        Fault::RunIdMissing.detail() == "run_id missing after preparation"@,
        Fault::LifecyclePoisoned.detail() == "mailbox lifecycle lock poisoned"@,
        Fault::LifecycleBusy.detail() == "mailbox lifecycle transition is already running"@,
{
}

/// An error in words begins with its kind and ends with its cause.
pub proof fn lemma_error_words_name_kind_and_cause(message: String, error: StorageError)
    ensures
        MailboxError::Validation(message).text() == "validation error: "@ + message@,
        MailboxError::Internal(message).text() == "internal error: "@ + message@,
        MailboxError::Store(error).text() == "store error: "@ + error.text(),
        (MailboxError::DeliveryBlockedByBarrier { blocking_pending_id: message }).text()
            == "delivery blocked by pending barrier '"@ + message@ + "'"@,
        StorageError::NotFound(message).text() == "not found: "@ + message@,
        StorageError::AlreadyExists(message).text() == "already exists: "@ + message@,
        StorageError::Validation(message).text() == "validation: "@ + message@,
        (StorageError::PendingSelectionConflict { detail: message }).text()
            == "pending selection conflict: "@ + message@,
        StorageError::Other(message).text() == message@,
{
}

} // verus!
