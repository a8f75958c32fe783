//! Plan status targets of `cvg plan transition`.
use vstd::prelude::*;

verus! {

/// Target status of a plan transition; mirrors the daemon's plan
/// statuses.
#[derive(Debug, Clone, Copy, PartialEq, Eq, Structural)]
pub enum PlanTransitionTarget {
    /// Newly created, no work yet.
    Draft,
    /// Tasks may be claimed.
    Active,
    /// All tasks complete and validated.
    Completed,
    /// Abandoned.
    Cancelled,
}

pub open spec fn wire_name(t: PlanTransitionTarget) -> Seq<char> {
    match t {
        PlanTransitionTarget::Draft => "draft"@,
        PlanTransitionTarget::Active => "active"@,
        PlanTransitionTarget::Completed => "completed"@,
        PlanTransitionTarget::Cancelled => "cancelled"@,
    }
}

impl PlanTransitionTarget {
    /// The status as the daemon names it.
    pub fn as_wire(self) -> (r: &'static str)
        ensures
            r@ == wire_name(self),
    {
        match self {
            PlanTransitionTarget::Draft => "draft",
            PlanTransitionTarget::Active => "active",
            PlanTransitionTarget::Completed => "completed",
            PlanTransitionTarget::Cancelled => "cancelled",
        }
    }
}

} // verus!
