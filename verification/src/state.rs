use vstd::prelude::*;

verus! {

/// The four outcomes a node can report from one `resume_with` call.
///
/// Composite and decorator nodes never invent outcomes of their own: they
/// only remap or relay these four.
#[derive(Debug, PartialEq, Eq, Structural, Copy, Clone)]
pub enum BehaviorTreeState {
    /// Blocked on a condition outside the tree's control; retry later.
    Waiting,
    /// Blocked only because the shared gas budget ran out.
    WaitingForGas,
    /// This subtree's work is done and unsuccessful.
    Failed,
    /// This subtree's work is done and successful.
    Complete,
}

/// True for the two outcomes that end a subtree's work for good
/// (until a reset), false for the two suspensions.
pub open spec fn is_decided(s: BehaviorTreeState) -> bool {
    s is Failed || s is Complete
}

/// Outcome table of an inverter: swaps the two decided outcomes and
/// passes both suspensions through unchanged.
pub open spec fn inverter_outcome(child: BehaviorTreeState) -> BehaviorTreeState {
    match child {
        BehaviorTreeState::Complete => BehaviorTreeState::Failed,
        BehaviorTreeState::Failed => BehaviorTreeState::Complete,
        BehaviorTreeState::Waiting => BehaviorTreeState::Waiting,
        BehaviorTreeState::WaitingForGas => BehaviorTreeState::WaitingForGas,
    }
}

/// Outcome table of a succeeder: both decided outcomes become `Complete`;
/// both suspensions pass through unchanged.
pub open spec fn succeeder_outcome(child: BehaviorTreeState) -> BehaviorTreeState {
    match child {
        BehaviorTreeState::Complete => BehaviorTreeState::Complete,
        BehaviorTreeState::Failed => BehaviorTreeState::Complete,
        BehaviorTreeState::Waiting => BehaviorTreeState::Waiting,
        BehaviorTreeState::WaitingForGas => BehaviorTreeState::WaitingForGas,
    }
}

/// Outcome table of a failer: both decided outcomes become `Failed`;
/// both suspensions pass through unchanged.
pub open spec fn failer_outcome(child: BehaviorTreeState) -> BehaviorTreeState {
    match child {
        BehaviorTreeState::Complete => BehaviorTreeState::Failed,
        BehaviorTreeState::Failed => BehaviorTreeState::Failed,
        BehaviorTreeState::Waiting => BehaviorTreeState::Waiting,
        BehaviorTreeState::WaitingForGas => BehaviorTreeState::WaitingForGas,
    }
}

/// Executable form of the inverter's outcome table.
pub fn apply_inverter_outcome(child: BehaviorTreeState) -> (r: BehaviorTreeState)
    ensures
        r == inverter_outcome(child),
{
    match child {
        BehaviorTreeState::Complete => BehaviorTreeState::Failed,
        BehaviorTreeState::Failed => BehaviorTreeState::Complete,
        BehaviorTreeState::Waiting => BehaviorTreeState::Waiting,
        BehaviorTreeState::WaitingForGas => BehaviorTreeState::WaitingForGas,
    }
}

/// Executable form of the succeeder's outcome table.
pub fn apply_succeeder_outcome(child: BehaviorTreeState) -> (r: BehaviorTreeState)
    ensures
        r == succeeder_outcome(child),
{
    match child {
        BehaviorTreeState::Complete => BehaviorTreeState::Complete,
        BehaviorTreeState::Failed => BehaviorTreeState::Complete,
        BehaviorTreeState::Waiting => BehaviorTreeState::Waiting,
        BehaviorTreeState::WaitingForGas => BehaviorTreeState::WaitingForGas,
    }
}

/// Executable form of the failer's outcome table.
pub fn apply_failer_outcome(child: BehaviorTreeState) -> (r: BehaviorTreeState)
    ensures
        r == failer_outcome(child),
{
    match child {
        BehaviorTreeState::Complete => BehaviorTreeState::Failed,
        BehaviorTreeState::Failed => BehaviorTreeState::Failed,
        BehaviorTreeState::Waiting => BehaviorTreeState::Waiting,
        BehaviorTreeState::WaitingForGas => BehaviorTreeState::WaitingForGas,
    }
}

/// How one call may change the shared gas budget: an unlimited budget
/// (`None`) stays unlimited, and a bounded budget is never replenished
/// by the tree, only consumed.
pub open spec fn gas_step_ok(pre: Option<i32>, post: Option<i32>) -> bool {
    match (pre, post) {
        (Option::None, Option::None) => true,
        (Option::Some(a), Option::Some(b)) => b <= a,
        _ => false,
    }
}

} // verus!
