//! Plain records exchanged with Thingd storage backends.
use vstd::prelude::*;

verus! {

/// Life-cycle state of a queued job.
#[derive(Debug, Clone, Copy, PartialEq, Eq, Structural)]
pub enum JobState {
    Queued,
    Leased,
    Completed,
    Retrying,
    Dead,
}

/// A typed relation between two stored objects.
#[derive(Debug, Clone)]
pub struct ThingdLink {
    pub id: String,
    pub source_id: String,
    pub target_id: String,
    pub relation: String,
    pub created_at: String,
}

/// How a filter compares a field with a value.
#[derive(Debug, Clone, Copy, PartialEq, Eq, Structural)]
pub enum FilterOperator {
    Eq,
    Ne,
    Gt,
    Lt,
    Gte,
    Lte,
    Contains,
}

/// Outcome of one operation of a batch.
#[derive(Debug, Clone)]
pub struct ThingdOperationResult {
    pub success: bool,
    pub error: Option<String>,
}

} // verus!
