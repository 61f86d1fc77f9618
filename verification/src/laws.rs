use vstd::prelude::*;

use crate::nodes::node_resume_rel;
use crate::nodes::BehaviorTreeNode;
use crate::script::scripted_outcome;
use crate::script::ScriptedLeaf;
use crate::state::failer_outcome;
use crate::state::inverter_outcome;
use crate::state::succeeder_outcome;
use crate::state::BehaviorTreeState;

verus! {

/// A scripted tree: a live tree whose leaves and wrapper nodes are all
/// scripted, so that every outcome in it is pinned by the scripts.
pub type ScriptedNode<M, C> = BehaviorTreeNode<ScriptedLeaf<M, C>, ScriptedLeaf<M, C>>;

/// The outcome table of an inverter holds of every call:
/// whatever outcome the scripted child yields — `Complete`, `Failed`,
/// `Waiting` or `WaitingForGas` — the inverter reports exactly the
/// table's remapping of it.
pub proof fn lemma_inverter_table<M, C>(
    pre: ScriptedNode<M, C>,
    pre_gas: Option<i32>,
    post: ScriptedNode<M, C>,
    post_gas: Option<i32>,
    r: BehaviorTreeState,
)
    requires
        pre is Inverter,
        (*pre->Inverter_0.node) is User,
        node_resume_rel(pre, pre_gas, post, post_gas, r),
    ensures
        r == inverter_outcome(scripted_outcome((*pre->Inverter_0.node)->User_0, pre_gas)),
{
    let a = pre->Inverter_0;
    let b = post->Inverter_0;
    let rc = choose|rc: BehaviorTreeState|
        node_resume_rel(*a.node, pre_gas, *b.node, post_gas, rc) && r == inverter_outcome(rc);
    assert(node_resume_rel(*a.node, pre_gas, *b.node, post_gas, rc));
}

/// The outcome table of a succeeder holds of every call: both decided
/// child outcomes come back as `Complete`, both suspensions pass
/// through unchanged.
pub proof fn lemma_succeeder_table<M, C>(
    pre: ScriptedNode<M, C>,
    pre_gas: Option<i32>,
    post: ScriptedNode<M, C>,
    post_gas: Option<i32>,
    r: BehaviorTreeState,
)
    requires
        pre is Succeeder,
        (*pre->Succeeder_0.node) is User,
        node_resume_rel(pre, pre_gas, post, post_gas, r),
    ensures
        r == succeeder_outcome(scripted_outcome((*pre->Succeeder_0.node)->User_0, pre_gas)),
{
    let a = pre->Succeeder_0;
    let b = post->Succeeder_0;
    let rc = choose|rc: BehaviorTreeState|
        node_resume_rel(*a.node, pre_gas, *b.node, post_gas, rc) && r == succeeder_outcome(rc);
    assert(node_resume_rel(*a.node, pre_gas, *b.node, post_gas, rc));
}

/// The outcome table of a failer holds of every call: both decided
/// child outcomes come back as `Failed`, both suspensions pass through
/// unchanged.
pub proof fn lemma_failer_table<M, C>(
    pre: ScriptedNode<M, C>,
    pre_gas: Option<i32>,
    post: ScriptedNode<M, C>,
    post_gas: Option<i32>,
    r: BehaviorTreeState,
)
    requires
        pre is Failer,
        (*pre->Failer_0.node) is User,
        node_resume_rel(pre, pre_gas, post, post_gas, r),
    ensures
        r == failer_outcome(scripted_outcome((*pre->Failer_0.node)->User_0, pre_gas)),
{
    let a = pre->Failer_0;
    let b = post->Failer_0;
    let rc = choose|rc: BehaviorTreeState|
        node_resume_rel(*a.node, pre_gas, *b.node, post_gas, rc) && r == failer_outcome(rc);
    assert(node_resume_rel(*a.node, pre_gas, *b.node, post_gas, rc));
}

} // verus!
