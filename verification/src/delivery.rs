//! Pending messages, and the boundaries at which a run consumes them.

use vstd::prelude::*;

use crate::message::{copy_text, Message};

verus! {

/// The points at which pending messages are consumed.
#[derive(Clone, Copy, Debug, PartialEq, Eq, Structural)]
pub enum DeliveryBoundary {
    NewRun,
    Interrupt,
    NextStep,
    ResumeInput,
}

/// The name of a boundary.
pub open spec fn name_of_boundary(boundary: DeliveryBoundary) -> &'static str {
    match boundary {
        DeliveryBoundary::NewRun => "NewRun",
        DeliveryBoundary::Interrupt => "Interrupt",
        DeliveryBoundary::NextStep => "NextStep",
        DeliveryBoundary::ResumeInput => "ResumeInput",
    }
}

/// The name of a boundary.
pub fn boundary_name(boundary: DeliveryBoundary) -> (r: &'static str)
    ensures
        r == name_of_boundary(boundary),
{
    match boundary {
        DeliveryBoundary::NewRun => "NewRun",
        DeliveryBoundary::Interrupt => "Interrupt",
        DeliveryBoundary::NextStep => "NextStep",
        DeliveryBoundary::ResumeInput => "ResumeInput",
    }
}

/// Whether pending messages are consumed together or one by one.
#[derive(Clone, Copy, Debug, PartialEq, Eq, Structural)]
pub enum DeliveryGranularity {
    Single,
    Batch,
}

/// How a pending message is to be delivered.
#[derive(Debug, PartialEq)]
pub struct DeliveryMode {
    pub boundary: DeliveryBoundary,
    pub granularity: DeliveryGranularity,
    pub barrier: bool,
    pub target_run_id: Option<String>,
    pub fallback_to_new_run: bool,
}

impl Clone for DeliveryMode {
    fn clone(&self) -> (r: Self)
        ensures
            r == *self,
    {
        DeliveryMode {
            boundary: self.boundary,
            granularity: self.granularity,
            barrier: self.barrier,
            target_run_id: copy_text(&self.target_run_id),
            fallback_to_new_run: self.fallback_to_new_run,
        }
    }
}

/// A message that waits to be consumed.
#[derive(Clone, Debug, PartialEq)]
pub struct PendingMessageRecord {
    pub pending_id: String,
    pub thread_id: String,
    pub position: u64,
    pub message: Message,
    pub revision: u64,
    pub delivery_mode: DeliveryMode,
    pub created_at: Option<u64>,
    pub updated_at: Option<u64>,
}

/// A committed message and its sequence number.
#[derive(Clone, Debug, PartialEq)]
pub struct MessageRecord {
    pub seq: u64,
    pub message: Message,
}

/// The name of a boundary tells it apart from the others.
pub proof fn lemma_boundaries_are_told_by_name(boundary: DeliveryBoundary, other: DeliveryBoundary)
    ensures
        name_of_boundary(boundary)@ == (match boundary {
            DeliveryBoundary::NewRun => "NewRun"@,
            DeliveryBoundary::Interrupt => "Interrupt"@,
            DeliveryBoundary::NextStep => "NextStep"@,
            DeliveryBoundary::ResumeInput => "ResumeInput"@,
        }),
        name_of_boundary(boundary)@ == name_of_boundary(other)@ ==> boundary == other,
{
    reveal_strlit("NewRun");
    reveal_strlit("Interrupt");
    reveal_strlit("NextStep");
    reveal_strlit("ResumeInput");
    assert("NewRun"@.len() == 6);
    assert("Interrupt"@.len() == 9);
    assert("NextStep"@.len() == 8);
    assert("ResumeInput"@.len() == 11);
}

} // verus!
