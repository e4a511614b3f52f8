//! The commit of messages together with a run record.

use vstd::prelude::*;

verus! {

/// Why a commit was refused.
#[derive(Debug, PartialEq)]
pub enum CommitError {
    MessageVersionConflict,
    Other { error: String },
}

/// What a commit answered.
#[derive(Debug, PartialEq)]
pub enum CommitOutcome {
    Committed,
    Conflict,
    Failed { error: String },
}

/// What a commit of messages came to.
pub open spec fn outcome_of(result: Result<(), CommitError>) -> CommitOutcome {
    match result {
        Ok(_) => CommitOutcome::Committed,
        Err(CommitError::MessageVersionConflict) => CommitOutcome::Conflict,
        Err(CommitError::Other { error }) => CommitOutcome::Failed { error },
    }
}

/// What a commit of messages, guarded by the length of the log, answered. A log that
/// has grown meanwhile is no failure: the caller reads it again and retries.
pub fn commit_run_append(result: Result<(), CommitError>) -> (r: CommitOutcome)
    ensures
        r == outcome_of(result),
        r == (match result {
            Ok(_) => CommitOutcome::Committed,
            Err(CommitError::MessageVersionConflict) => CommitOutcome::Conflict,
            Err(CommitError::Other { error }) => CommitOutcome::Failed { error },
        }),
{
    match result {
        Ok(_) => CommitOutcome::Committed,
        Err(CommitError::MessageVersionConflict) => CommitOutcome::Conflict,
        Err(CommitError::Other { error }) => CommitOutcome::Failed { error },
    }
}

/// A commit is tried again exactly where the log had grown. It counts as made only where
/// it was accepted, and any other refusal is a failure with its error.
pub proof fn lemma_only_a_grown_log_is_a_conflict(result: Result<(), CommitError>)
    ensures
        outcome_of(result) == CommitOutcome::Committed <==> result is Ok,
        outcome_of(result) == CommitOutcome::Conflict <==> result == Err::<(), CommitError>(
            CommitError::MessageVersionConflict,
        ),
        result matches Err(CommitError::Other { error }) ==> outcome_of(result) == (
        CommitOutcome::Failed { error }),
{
}

} // verus!
