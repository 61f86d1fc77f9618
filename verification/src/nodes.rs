use vstd::prelude::*;

use vstd::string::StringExecFns;

use crate::audit::audit_enter;
use crate::audit::audit_exit;
use crate::audit::audit_step_ok;
use crate::audit::audit_bracketed;
use crate::audit::lemma_audit_bracket_exit;
use crate::audit::lemma_audit_bracket_suspend;
use crate::audit::lemma_audit_bracket_yield;
use crate::audit::lemma_audit_open_after_enter;
use crate::audit::lemma_audit_open_exit;
use crate::audit::lemma_audit_open_step;
use crate::audit::lemma_audit_open_suspend;
use crate::audit::lemma_audit_open_yield;
use crate::audit::audit_open_ok;
use crate::audit::BehaviorTreeAudit;
use crate::state::apply_failer_outcome;
use crate::state::failer_outcome;
use crate::state::inverter_outcome;
use crate::state::succeeder_outcome;
use crate::state::apply_inverter_outcome;
use crate::state::apply_succeeder_outcome;
use crate::state::gas_step_ok;
use crate::state::is_decided;
use crate::state::BehaviorTreeState;

verus! {

/// How many times a stateless loop decorator will re-run its child within
/// one call before yielding cooperatively. The bound exists so that one
/// call is guaranteed to return; it is far beyond anything a real child
/// could complete in a lifetime of the process.
pub const DECORATOR_LOOP_FUEL: u64 = 0xFFFF_FFFF_FFFF_FFFF;

/// What any node's `resume_with` may do to the shared gas budget and the
/// optional audit trail, and when it may blame the budget: gas is never
/// replenished, the audit trail only grows with a balanced stack of open
/// frames, and `WaitingForGas` can only be reported under a bounded budget.
pub open spec fn resume_step_ok(
    pre_gas: Option<i32>,
    post_gas: Option<i32>,
    pre_audit: Option<BehaviorTreeAudit>,
    post_audit: Option<BehaviorTreeAudit>,
    r: BehaviorTreeState,
) -> bool {
    gas_step_ok(pre_gas, post_gas) && audit_step_ok(pre_audit, post_audit, r) && (r
        is WaitingForGas ==> pre_gas is Some)
}

/// The uniform contract every tree element implements, leaf or composite.
///
/// `resume_with` performs or continues one unit of work, starting from any
/// progress stored by an earlier suspended call; `reset` clears that
/// progress; `get_name` returns the stable identifier used for audit
/// correlation only.
pub trait BehaviorTree: Sized {
    type Model;

    type Controller;

    /// What one `resume_with` call on this node may do, as far as the
    /// node cares to say: how the outcome and the state after the call
    /// relate to the state before it and to the gas budget it was
    /// handed. An implementation free of any promise uses `true`.
    open spec fn resume_rel(
        pre: Self,
        pre_gas: Option<i32>,
        post: Self,
        post_gas: Option<i32>,
        r: BehaviorTreeState,
    ) -> bool {
        true
    }

    fn get_name(&self) -> &String;

    fn resume_with(
        &mut self,
        model: &Self::Model,
        controller: &mut Self::Controller,
        gas: &mut Option<i32>,
        audit: &mut Option<BehaviorTreeAudit>,
    ) -> (r: BehaviorTreeState)
        ensures
            resume_step_ok(*old(gas), *final(gas), *old(audit), *final(audit), r),
            Self::resume_rel(*old(self), *old(gas), *final(self), *final(gas), r),
    ;

    fn reset(&mut self, model: &Self::Model);
}

/// A decorator that reports `Complete` whenever its child decided.
pub struct Succeeder<L, W> {
    /// Identifier for audit correlation.
    pub name: String,
    /// The wrapped child.
    pub node: Box<BehaviorTreeNode<L, W>>,
}

/// A decorator that reports `Failed` whenever its child decided.
pub struct Failer<L, W> {
    /// Identifier for audit correlation.
    pub name: String,
    /// The wrapped child.
    pub node: Box<BehaviorTreeNode<L, W>>,
}

/// A decorator that swaps its child's `Complete` and `Failed`.
pub struct Inverter<L, W> {
    /// Identifier for audit correlation.
    pub name: String,
    /// The wrapped child.
    pub node: Box<BehaviorTreeNode<L, W>>,
}

/// A decorator that runs its child up to a fixed number of completions,
/// counting across suspended calls, with no partial credit on failure.
pub struct Repeat<L, W> {
    /// Identifier for audit correlation.
    pub name: String,
    /// The wrapped child.
    pub node: Box<BehaviorTreeNode<L, W>>,
    /// How many completions one full run asks for.
    pub runs: usize,
    /// How many completions are still owed in the current run.
    pub runs_left: usize,
}

/// A stateless decorator that re-runs its child until it fails, and then
/// reports `Complete`.
pub struct RepeatUntilFail<L, W> {
    /// Identifier for audit correlation.
    pub name: String,
    /// The wrapped child.
    pub node: Box<BehaviorTreeNode<L, W>>,
}

/// A stateless decorator that re-runs its child until it completes.
pub struct RepeatUntilSuccess<L, W> {
    /// Identifier for audit correlation.
    pub name: String,
    /// The wrapped child.
    pub node: Box<BehaviorTreeNode<L, W>>,
}

/// The AND composite: runs its children in declared order, resuming at a
/// stored index after a suspension, and fails as soon as one child fails.
pub struct Sequence<L, W> {
    /// Identifier for audit correlation.
    pub name: String,
    /// The children, attempted left to right.
    pub nodes: Vec<BehaviorTreeNode<L, W>>,
    /// Where to resume, or `None` when no traversal is underway.
    pub index: Option<usize>,
}

/// The OR composite: runs its children in declared order, resuming at a
/// stored index after a suspension, and completes as soon as one child
/// completes.
pub struct Selector<L, W> {
    /// Identifier for audit correlation.
    pub name: String,
    /// The children, attempted left to right.
    pub nodes: Vec<BehaviorTreeNode<L, W>>,
    /// Where to resume, or `None` when no traversal is underway.
    pub index: Option<usize>,
}

/// One live node of a compiled tree: a structural node of this library,
/// or a caller-supplied leaf `L` or wrapper node `W`.
pub enum BehaviorTreeNode<L, W> {
    Sequence(Sequence<L, W>),
    Selector(Selector<L, W>),
    Repeat(Repeat<L, W>),
    RepeatUntilSuccess(RepeatUntilSuccess<L, W>),
    RepeatUntilFail(RepeatUntilFail<L, W>),
    Succeeder(Succeeder<L, W>),
    Failer(Failer<L, W>),
    Inverter(Inverter<L, W>),
    User(L),
    Wrapper(W),
}

/// Structural height of a node: how deep the library-owned part of the
/// tree is below it. Leaves and wrapper nodes count zero; `resume_with`
/// and `reset` never change it, which makes it a sound measure for the
/// recursion through the tree.
pub open spec fn node_height<L, W>(n: BehaviorTreeNode<L, W>) -> nat
    decreases n,
{
    match n {
        BehaviorTreeNode::Sequence(s) => node_seq_height(s.nodes@) + 1,
        BehaviorTreeNode::Selector(s) => node_seq_height(s.nodes@) + 1,
        BehaviorTreeNode::Repeat(d) => node_height(*d.node) + 2,
        BehaviorTreeNode::RepeatUntilSuccess(d) => node_height(*d.node) + 2,
        BehaviorTreeNode::RepeatUntilFail(d) => node_height(*d.node) + 2,
        BehaviorTreeNode::Succeeder(d) => node_height(*d.node) + 2,
        BehaviorTreeNode::Failer(d) => node_height(*d.node) + 2,
        BehaviorTreeNode::Inverter(d) => node_height(*d.node) + 2,
        BehaviorTreeNode::User(_) => 0,
        BehaviorTreeNode::Wrapper(_) => 0,
    }
}

/// Combined structural height of a list of children.
pub open spec fn node_seq_height<L, W>(s: Seq<BehaviorTreeNode<L, W>>) -> nat
    decreases s,
{
    if s.len() == 0 {
        0
    } else {
        node_seq_height(s.drop_last()) + node_height(s.last()) + 1
    }
}

/// Each child of a list stands strictly below the list's combined height.
pub proof fn lemma_node_seq_height_elem<L, W>(s: Seq<BehaviorTreeNode<L, W>>, i: int)
    requires
        0 <= i < s.len(),
    ensures
        node_height(s[i]) < node_seq_height(s),
    decreases s.len(),
{
    if i == s.len() - 1 {
    } else {
        lemma_node_seq_height_elem(s.drop_last(), i);
        assert(s.drop_last()[i] == s[i]);
    }
}

/// Two child lists whose members agree in height agree in combined height.
pub proof fn lemma_node_seq_height_congruent<L, W>(
    s1: Seq<BehaviorTreeNode<L, W>>,
    s2: Seq<BehaviorTreeNode<L, W>>,
)
    requires
        s1.len() == s2.len(),
        forall|j: int|
            0 <= j < s1.len() ==> node_height(#[trigger] s1[j]) == node_height(s2[j]),
    ensures
        node_seq_height(s1) == node_seq_height(s2),
    decreases s1.len(),
{
    if s1.len() > 0 {
        lemma_node_seq_height_congruent(s1.drop_last(), s2.drop_last());
        assert(node_height(s1[s1.len() - 1]) == node_height(s2[s2.len() - 1]));
    }
}

/// How one call's outcome relates to the states before and after it,
/// node for node, as deep as the library can say without looking into
/// caller-supplied code: a leaf or wrapper node answers for itself
/// through its own `resume_rel`; the three simple decorators report
/// exactly their outcome table applied to what their child reported;
/// the variant of the node never changes. The list nodes' and loop
/// decorators' run relations (`sequence_step_rel` and kin) stand beside
/// this relation, as further clauses on `resume_with` itself.
pub open spec fn node_resume_rel<L, W>(
    pre: BehaviorTreeNode<L, W>,
    pre_gas: Option<i32>,
    post: BehaviorTreeNode<L, W>,
    post_gas: Option<i32>,
    r: BehaviorTreeState,
) -> bool where L: BehaviorTree, W: BehaviorTree<Model = L::Model, Controller = L::Controller>
    decreases node_height(pre),
{
    match (pre, post) {
        (BehaviorTreeNode::Sequence(_), BehaviorTreeNode::Sequence(_)) => true,
        (BehaviorTreeNode::Selector(_), BehaviorTreeNode::Selector(_)) => true,
        (BehaviorTreeNode::Repeat(a), BehaviorTreeNode::Repeat(b)) => b.name == a.name
            && b.runs == a.runs,
        (BehaviorTreeNode::RepeatUntilSuccess(_), BehaviorTreeNode::RepeatUntilSuccess(_)) =>
            true,
        (BehaviorTreeNode::RepeatUntilFail(_), BehaviorTreeNode::RepeatUntilFail(_)) => true,
        (BehaviorTreeNode::Succeeder(a), BehaviorTreeNode::Succeeder(b)) => exists|
            rc: BehaviorTreeState,
        |
            #![all_triggers]
            node_resume_rel(*a.node, pre_gas, *b.node, post_gas, rc) && r == succeeder_outcome(rc),
        (BehaviorTreeNode::Failer(a), BehaviorTreeNode::Failer(b)) => exists|
            rc: BehaviorTreeState,
        |
            #![all_triggers]
            node_resume_rel(*a.node, pre_gas, *b.node, post_gas, rc) && r == failer_outcome(rc),
        (BehaviorTreeNode::Inverter(a), BehaviorTreeNode::Inverter(b)) => exists|
            rc: BehaviorTreeState,
        |
            #![all_triggers]
            node_resume_rel(*a.node, pre_gas, *b.node, post_gas, rc) && r == inverter_outcome(rc),
        (BehaviorTreeNode::User(a), BehaviorTreeNode::User(b)) => L::resume_rel(
            a,
            pre_gas,
            b,
            post_gas,
            r,
        ),
        (BehaviorTreeNode::Wrapper(a), BehaviorTreeNode::Wrapper(b)) => W::resume_rel(
            a,
            pre_gas,
            b,
            post_gas,
            r,
        ),
        _ => false,
    }
}

/// A run of `k` consecutive child calls that all reported the outcome
/// `again`, threading the child's state and the gas budget through the
/// chain.
pub open spec fn node_steps_chain<L, W>(
    pre: BehaviorTreeNode<L, W>,
    pre_gas: Option<i32>,
    post: BehaviorTreeNode<L, W>,
    post_gas: Option<i32>,
    k: nat,
    again: BehaviorTreeState,
) -> bool where L: BehaviorTree, W: BehaviorTree<Model = L::Model, Controller = L::Controller>
    decreases k,
{
    if k == 0 {
        post == pre && post_gas == pre_gas
    } else {
        exists|mid: BehaviorTreeNode<L, W>, mid_gas: Option<i32>|
            #![all_triggers]
            node_steps_chain(pre, pre_gas, mid, mid_gas, (k - 1) as nat, again)
                && node_resume_rel(mid, mid_gas, post, post_gas, again)
    }
}

/// A run of `k` child calls that all reported `again`, followed by one
/// more child call that reported the given outcome.
pub open spec fn node_run_rel<L, W>(
    pre: BehaviorTreeNode<L, W>,
    pre_gas: Option<i32>,
    post: BehaviorTreeNode<L, W>,
    post_gas: Option<i32>,
    k: nat,
    again: BehaviorTreeState,
    t: BehaviorTreeState,
) -> bool where L: BehaviorTree, W: BehaviorTree<Model = L::Model, Controller = L::Controller> {
    exists|mid: BehaviorTreeNode<L, W>, mid_gas: Option<i32>|
        #![all_triggers]
        node_steps_chain(pre, pre_gas, mid, mid_gas, k, again) && node_resume_rel(
            mid,
            mid_gas,
            post,
            post_gas,
            t,
        )
}

/// The children of a list node in the window `[i, j)` each took one
/// call that reported `again`, child for child and left to right,
/// threading the gas budget; children outside the window are untouched.
pub open spec fn list_children_run<L, W>(
    pre: Seq<BehaviorTreeNode<L, W>>,
    pre_gas: Option<i32>,
    post: Seq<BehaviorTreeNode<L, W>>,
    post_gas: Option<i32>,
    i: int,
    j: int,
    again: BehaviorTreeState,
) -> bool where L: BehaviorTree, W: BehaviorTree<Model = L::Model, Controller = L::Controller>
    decreases j - i,
{
    if i >= j {
        post == pre && post_gas == pre_gas
    } else {
        exists|m: int, prev_child: BehaviorTreeNode<L, W>, mid_gas: Option<i32>|
            m == j - 1 && 0 <= m < post.len() && list_children_run(
                pre,
                pre_gas,
                post.update(m, prev_child),
                mid_gas,
                i,
                m,
                again,
            ) && #[trigger] node_resume_rel(prev_child, mid_gas, post[m], post_gas, again)
    }
}

/// The children in `[i, j)` each reported `again`, and child `j` then
/// took one call that reported the given outcome.
pub open spec fn list_run_terminal<L, W>(
    pre: Seq<BehaviorTreeNode<L, W>>,
    pre_gas: Option<i32>,
    post: Seq<BehaviorTreeNode<L, W>>,
    post_gas: Option<i32>,
    i: int,
    j: int,
    again: BehaviorTreeState,
    t: BehaviorTreeState,
) -> bool where L: BehaviorTree, W: BehaviorTree<Model = L::Model, Controller = L::Controller> {
    exists|prev_child: BehaviorTreeNode<L, W>, mid_gas: Option<i32>|
        0 <= j < post.len() && #[trigger] list_children_run(
            pre,
            pre_gas,
            post.update(j, prev_child),
            mid_gas,
            i,
            j,
            again,
        ) && node_resume_rel(prev_child, mid_gas, post[j], post_gas, t)
}

/// What one call on a sequence does, in terms of the children it ran:
/// starting at the stored resume point, either every remaining child
/// completed and the sequence completed; or some child failed after the
/// ones before it completed, and the sequence failed with its index
/// cleared; or some child suspended and the sequence stored its index
/// and relayed the suspension.
pub open spec fn sequence_step_rel<L, W>(
    pre: Sequence<L, W>,
    pre_gas: Option<i32>,
    post: Sequence<L, W>,
    post_gas: Option<i32>,
    r: BehaviorTreeState,
) -> bool where L: BehaviorTree, W: BehaviorTree<Model = L::Model, Controller = L::Controller> {
    let start = list_resume_start(pre.index, pre.nodes@.len());
    let n = pre.nodes@.len() as int;
    post.name == pre.name && post.nodes@.len() == n && ((r is Complete && post.index is None
        && list_children_run(
        pre.nodes@,
        pre_gas,
        post.nodes@,
        post_gas,
        start,
        n,
        BehaviorTreeState::Complete,
    )) || (r is Failed && post.index is None && (exists|j: int|
        start <= j < n && #[trigger] list_run_terminal(
            pre.nodes@,
            pre_gas,
            post.nodes@,
            post_gas,
            start,
            j,
            BehaviorTreeState::Complete,
            BehaviorTreeState::Failed,
        ))) || (!is_decided(r) && (post.index matches Option::Some(j) && start <= j < n
        && list_run_terminal(
        pre.nodes@,
        pre_gas,
        post.nodes@,
        post_gas,
        start,
        j as int,
        BehaviorTreeState::Complete,
        r,
    ))))
}

/// What one call on a selector does, in terms of the children it ran:
/// starting at the stored resume point, either some child completed
/// after the ones before it failed, and the selector completed with its
/// index cleared; or every remaining child failed and the selector
/// failed; or some child suspended and the selector stored its index
/// and relayed the suspension.
pub open spec fn selector_step_rel<L, W>(
    pre: Selector<L, W>,
    pre_gas: Option<i32>,
    post: Selector<L, W>,
    post_gas: Option<i32>,
    r: BehaviorTreeState,
) -> bool where L: BehaviorTree, W: BehaviorTree<Model = L::Model, Controller = L::Controller> {
    let start = list_resume_start(pre.index, pre.nodes@.len());
    let n = pre.nodes@.len() as int;
    post.name == pre.name && post.nodes@.len() == n && ((r is Failed && post.index is None
        && list_children_run(
        pre.nodes@,
        pre_gas,
        post.nodes@,
        post_gas,
        start,
        n,
        BehaviorTreeState::Failed,
    )) || (r is Complete && post.index is None && (exists|j: int|
        start <= j < n && #[trigger] list_run_terminal(
            pre.nodes@,
            pre_gas,
            post.nodes@,
            post_gas,
            start,
            j,
            BehaviorTreeState::Failed,
            BehaviorTreeState::Complete,
        ))) || (!is_decided(r) && (post.index matches Option::Some(j) && start <= j < n
        && list_run_terminal(
        pre.nodes@,
        pre_gas,
        post.nodes@,
        post_gas,
        start,
        j as int,
        BehaviorTreeState::Failed,
        r,
    ))))
}

/// What one call on a repeat node does, in terms of the runs its child
/// made: either no completions were owed and nothing ran at all, or the
/// child ran through some completions and a final outcome, and the
/// node's own outcome and counter follow its policy: a failure restores the
/// full count and fails; a suspension keeps the count earned; the last
/// owed completion completes the node and restores the count.
pub open spec fn repeat_step_rel<L, W>(
    pre: Repeat<L, W>,
    pre_gas: Option<i32>,
    post: Repeat<L, W>,
    post_gas: Option<i32>,
    r: BehaviorTreeState,
) -> bool where L: BehaviorTree, W: BehaviorTree<Model = L::Model, Controller = L::Controller> {
    post.name == pre.name && post.runs == pre.runs && ((pre.runs_left == 0 && r is Complete
        && post.runs_left == pre.runs && *post.node == *pre.node && post_gas == pre_gas) || (
    exists|k: nat, t: BehaviorTreeState|
        k < pre.runs_left && #[trigger] node_run_rel(
            *pre.node,
            pre_gas,
            *post.node,
            post_gas,
            k,
            BehaviorTreeState::Complete,
            t,
        ) && (match t {
            BehaviorTreeState::Failed => r is Failed && post.runs_left == pre.runs,
            BehaviorTreeState::Waiting => r is Waiting && post.runs_left == pre.runs_left - k,
            BehaviorTreeState::WaitingForGas => r is WaitingForGas && post.runs_left
                == pre.runs_left - k,
            BehaviorTreeState::Complete => k == pre.runs_left - 1 && r is Complete
                && post.runs_left == pre.runs,
        })))
}

/// What one call on a repeat-until-fail node does, in terms of the runs
/// its child made: either the child completed some number of times and
/// then decided or suspended — a child failure is reported as this
/// node's `Complete`, a suspension is relayed — or the child completed
/// for the whole in-call iteration bound and the node yielded `Waiting`.
pub open spec fn repeat_until_fail_step_rel<L, W>(
    pre: RepeatUntilFail<L, W>,
    pre_gas: Option<i32>,
    post: RepeatUntilFail<L, W>,
    post_gas: Option<i32>,
    r: BehaviorTreeState,
) -> bool where L: BehaviorTree, W: BehaviorTree<Model = L::Model, Controller = L::Controller> {
    post.name == pre.name && ((exists|k: nat, t: BehaviorTreeState|
        k < DECORATOR_LOOP_FUEL && #[trigger] node_run_rel(
            *pre.node,
            pre_gas,
            *post.node,
            post_gas,
            k,
            BehaviorTreeState::Complete,
            t,
        ) && (match t {
            BehaviorTreeState::Failed => r is Complete,
            BehaviorTreeState::Waiting => r is Waiting,
            BehaviorTreeState::WaitingForGas => r is WaitingForGas,
            BehaviorTreeState::Complete => false,
        })) || (node_steps_chain(
        *pre.node,
        pre_gas,
        *post.node,
        post_gas,
        DECORATOR_LOOP_FUEL as nat,
        BehaviorTreeState::Complete,
    ) && r is Waiting))
}

/// What one call on a repeat-until-success node does: either the child
/// failed some number of times and then completed, decided against the
/// loop or suspended — a child completion is reported as this node's
/// `Complete`, a suspension is relayed — or the child failed for the
/// whole in-call iteration bound and the node yielded `Waiting`.
pub open spec fn repeat_until_success_step_rel<L, W>(
    pre: RepeatUntilSuccess<L, W>,
    pre_gas: Option<i32>,
    post: RepeatUntilSuccess<L, W>,
    post_gas: Option<i32>,
    r: BehaviorTreeState,
) -> bool where L: BehaviorTree, W: BehaviorTree<Model = L::Model, Controller = L::Controller> {
    post.name == pre.name && ((exists|k: nat, t: BehaviorTreeState|
        k < DECORATOR_LOOP_FUEL && #[trigger] node_run_rel(
            *pre.node,
            pre_gas,
            *post.node,
            post_gas,
            k,
            BehaviorTreeState::Failed,
            t,
        ) && (match t {
            BehaviorTreeState::Complete => r is Complete,
            BehaviorTreeState::Waiting => r is Waiting,
            BehaviorTreeState::WaitingForGas => r is WaitingForGas,
            BehaviorTreeState::Failed => false,
        })) || (node_steps_chain(
        *pre.node,
        pre_gas,
        *post.node,
        post_gas,
        DECORATOR_LOOP_FUEL as nat,
        BehaviorTreeState::Failed,
    ) && r is Waiting))
}

/// What `reset` does, node for node: list nodes forget their resume index
/// and keep their children untouched; `Repeat` restores its counter;
/// the stateless loop decorators do nothing; the remaining decorators
/// forward the reset to their child; caller-supplied nodes reset by their
/// own contract.
pub open spec fn reset_rel<L, W>(pre: BehaviorTreeNode<L, W>, post: BehaviorTreeNode<L, W>) -> bool
    decreases pre,
{
    match (pre, post) {
        (BehaviorTreeNode::Sequence(a), BehaviorTreeNode::Sequence(b)) => b.name == a.name
            && b.nodes == a.nodes && b.index is None,
        (BehaviorTreeNode::Selector(a), BehaviorTreeNode::Selector(b)) => b.name == a.name
            && b.nodes == a.nodes && b.index is None,
        (BehaviorTreeNode::Repeat(a), BehaviorTreeNode::Repeat(b)) => b.name == a.name && b.node
            == a.node && b.runs == a.runs && b.runs_left == a.runs,
        (BehaviorTreeNode::RepeatUntilSuccess(a), BehaviorTreeNode::RepeatUntilSuccess(b)) => b
            == a,
        (BehaviorTreeNode::RepeatUntilFail(a), BehaviorTreeNode::RepeatUntilFail(b)) => b == a,
        (BehaviorTreeNode::Succeeder(a), BehaviorTreeNode::Succeeder(b)) => b.name == a.name
            && reset_rel(*a.node, *b.node),
        (BehaviorTreeNode::Failer(a), BehaviorTreeNode::Failer(b)) => b.name == a.name
            && reset_rel(*a.node, *b.node),
        (BehaviorTreeNode::Inverter(a), BehaviorTreeNode::Inverter(b)) => b.name == a.name
            && reset_rel(*a.node, *b.node),
        (BehaviorTreeNode::User(_), BehaviorTreeNode::User(_)) => true,
        (BehaviorTreeNode::Wrapper(_), BehaviorTreeNode::Wrapper(_)) => true,
        _ => false,
    }
}

/// A node that stores no progress anywhere in its library-owned part:
/// no list node holds a resume index, and every repeat counter is full.
/// This is how a tree stands right after compilation or a deep reset;
/// what a caller-supplied leaf or wrapper stores is its own business.
pub open spec fn node_is_fresh<L, W>(n: BehaviorTreeNode<L, W>) -> bool
    decreases n,
{
    match n {
        BehaviorTreeNode::Sequence(s) => s.index is None && node_seq_is_fresh(s.nodes@),
        BehaviorTreeNode::Selector(s) => s.index is None && node_seq_is_fresh(s.nodes@),
        BehaviorTreeNode::Repeat(d) => d.runs_left == d.runs && node_is_fresh(*d.node),
        BehaviorTreeNode::RepeatUntilSuccess(d) => node_is_fresh(*d.node),
        BehaviorTreeNode::RepeatUntilFail(d) => node_is_fresh(*d.node),
        BehaviorTreeNode::Succeeder(d) => node_is_fresh(*d.node),
        BehaviorTreeNode::Failer(d) => node_is_fresh(*d.node),
        BehaviorTreeNode::Inverter(d) => node_is_fresh(*d.node),
        BehaviorTreeNode::User(_) => true,
        BehaviorTreeNode::Wrapper(_) => true,
    }
}

/// Every node of a child list is fresh.
pub open spec fn node_seq_is_fresh<L, W>(s: Seq<BehaviorTreeNode<L, W>>) -> bool
    decreases s,
{
    s.len() == 0 || (node_is_fresh(s.last()) && node_seq_is_fresh(s.drop_last()))
}

/// A reset never restructures the tree: whatever it clears, the
/// structural height stays what it was.
pub proof fn lemma_reset_preserves_height<L, W>(
    pre: BehaviorTreeNode<L, W>,
    post: BehaviorTreeNode<L, W>,
)
    requires
        reset_rel(pre, post),
    ensures
        node_height(post) == node_height(pre),
    decreases pre,
{
    match (pre, post) {
        (BehaviorTreeNode::Succeeder(a), BehaviorTreeNode::Succeeder(b)) => {
            lemma_reset_preserves_height(*a.node, *b.node);
        },
        (BehaviorTreeNode::Failer(a), BehaviorTreeNode::Failer(b)) => {
            lemma_reset_preserves_height(*a.node, *b.node);
        },
        (BehaviorTreeNode::Inverter(a), BehaviorTreeNode::Inverter(b)) => {
            lemma_reset_preserves_height(*a.node, *b.node);
        },
        _ => (),
    }
}

/// The index a list node's next call starts from, clamped to the child
/// count: the stored resume index, or zero when none is stored.
pub open spec fn list_resume_start(index: Option<usize>, len: nat) -> int {
    let raw = match index {
        Option::Some(i) => i as int,
        Option::None => 0,
    };
    if raw <= len {
        raw
    } else {
        len as int
    }
}

impl<L, W> Succeeder<L, W> {
    /// A fresh succeeder around the given child.
    pub fn new(node: Box<BehaviorTreeNode<L, W>>) -> (s: Succeeder<L, W>)
        ensures
            s.name@ == "Succeeder"@,
            s.node == node,
    {
        Succeeder { name: String::from_str("Succeeder"), node }
    }

    /// The stable identifier used for audit correlation.
    pub fn get_name(&self) -> (r: &String)
        ensures
            *r == self.name,
    {
        &self.name
    }
}

impl<L, W> Failer<L, W> {
    /// A fresh failer around the given child.
    pub fn new(node: Box<BehaviorTreeNode<L, W>>) -> (s: Failer<L, W>)
        ensures
            s.name@ == "Failer"@,
            s.node == node,
    {
        Failer { name: String::from_str("Failer"), node }
    }

    /// The stable identifier used for audit correlation.
    pub fn get_name(&self) -> (r: &String)
        ensures
            *r == self.name,
    {
        &self.name
    }
}

impl<L, W> Inverter<L, W> {
    /// A fresh inverter around the given child.
    pub fn new(node: Box<BehaviorTreeNode<L, W>>) -> (s: Inverter<L, W>)
        ensures
            s.name@ == "Inverter"@,
            s.node == node,
    {
        Inverter { name: String::from_str("Inverter"), node }
    }

    /// The stable identifier used for audit correlation.
    pub fn get_name(&self) -> (r: &String)
        ensures
            *r == self.name,
    {
        &self.name
    }
}

impl<L, W> Repeat<L, W> {
    /// A fresh repeat node asking for `runs` completions of the child.
    pub fn new(node: Box<BehaviorTreeNode<L, W>>, runs: usize) -> (s: Repeat<L, W>)
        ensures
            s.name@ == "Repeat"@,
            s.node == node,
            s.runs == runs,
            s.runs_left == runs,
    {
        Repeat { name: String::from_str("Repeat"), node, runs, runs_left: runs }
    }

    /// The stable identifier used for audit correlation.
    pub fn get_name(&self) -> (r: &String)
        ensures
            *r == self.name,
    {
        &self.name
    }
}

impl<L, W> RepeatUntilFail<L, W> {
    /// A fresh repeat-until-fail node around the given child.
    pub fn new(node: Box<BehaviorTreeNode<L, W>>) -> (s: RepeatUntilFail<L, W>)
        ensures
            s.name@ == "RepeatUntilFail"@,
            s.node == node,
    {
        RepeatUntilFail { name: String::from_str("RepeatUntilFail"), node }
    }

    /// The stable identifier used for audit correlation.
    pub fn get_name(&self) -> (r: &String)
        ensures
            *r == self.name,
    {
        &self.name
    }
}

impl<L, W> RepeatUntilSuccess<L, W> {
    /// A fresh repeat-until-success node around the given child.
    pub fn new(node: Box<BehaviorTreeNode<L, W>>) -> (s: RepeatUntilSuccess<L, W>)
        ensures
            s.name@ == "RepeatUntilSuccess"@,
            s.node == node,
    {
        RepeatUntilSuccess { name: String::from_str("RepeatUntilSuccess"), node }
    }

    /// The stable identifier used for audit correlation.
    pub fn get_name(&self) -> (r: &String)
        ensures
            *r == self.name,
    {
        &self.name
    }
}

impl<L, W> Sequence<L, W> {
    /// A fresh sequence over the given children, with no traversal stored.
    pub fn new(nodes: Vec<BehaviorTreeNode<L, W>>) -> (s: Sequence<L, W>)
        ensures
            s.name@ == "Sequence"@,
            s.nodes == nodes,
            s.index is None,
    {
        Sequence { name: String::from_str("Sequence"), nodes, index: Option::None }
    }

    /// The stable identifier used for audit correlation.
    pub fn get_name(&self) -> (r: &String)
        ensures
            *r == self.name,
    {
        &self.name
    }
}

impl<L, W> Selector<L, W> {
    /// A fresh selector over the given children, with no traversal stored.
    pub fn new(nodes: Vec<BehaviorTreeNode<L, W>>) -> (s: Selector<L, W>)
        ensures
            s.name@ == "Selector"@,
            s.nodes == nodes,
            s.index is None,
    {
        Selector { name: String::from_str("Selector"), nodes, index: Option::None }
    }

    /// The stable identifier used for audit correlation.
    pub fn get_name(&self) -> (r: &String)
        ensures
            *r == self.name,
    {
        &self.name
    }
}

impl<L, W> Succeeder<L, W> where
    L: BehaviorTree,
    W: BehaviorTree<Model = L::Model, Controller = L::Controller>,
{
    /// Run or continue the child; report `Complete` for either decided
    /// child outcome, and relay a suspension unchanged.
    pub fn resume_with(
        &mut self,
        model: &L::Model,
        controller: &mut L::Controller,
        gas: &mut Option<i32>,
        audit: &mut Option<BehaviorTreeAudit>,
    ) -> (r: BehaviorTreeState)
        ensures
            resume_step_ok(*old(gas), *final(gas), *old(audit), *final(audit), r),
            audit_bracketed(*old(audit), *final(audit), old(self).name, r),
            exists|rc: BehaviorTreeState|
                #![all_triggers]
                node_resume_rel(
                    *old(self).node,
                    *old(gas),
                    *final(self).node,
                    *final(gas),
                    rc,
                ) && r == succeeder_outcome(rc),
            !(r is Failed),
            final(self).name == old(self).name,
            node_height(*final(self).node) == node_height(*old(self).node),
        decreases node_height(*old(self).node) + 1,
    {
        let ghost a0 = *audit;
        audit_enter(audit, &self.name);
        proof {
            lemma_audit_open_after_enter(a0, *audit, self.name);
        }
        let ghost a1 = *audit;
        let rc = self.node.resume_with(model, controller, gas, audit);
        match rc {
            BehaviorTreeState::Failed | BehaviorTreeState::Complete => {
                proof {
                    lemma_audit_open_step(a0, a1, *audit, self.name, rc);
                }
                let ghost a2 = *audit;
                let out = apply_succeeder_outcome(rc);
                proof {
                    assert(node_resume_rel(*old(self).node, *old(gas), *self.node, *gas, rc));
                }
                audit_exit(audit, &self.name, out);
                proof {
                    lemma_audit_open_exit(a0, a2, *audit, self.name, out);
                    lemma_audit_bracket_exit(a0, a2, *audit, self.name, out);
                }
                out
            },
            _ => {
                proof {
                    lemma_audit_open_suspend(a0, a1, *audit, self.name, rc);
                    lemma_audit_bracket_suspend(a0, a1, *audit, self.name, rc);
                    assert(node_resume_rel(*old(self).node, *old(gas), *self.node, *gas, rc));
                }
                rc
            },
        }
    }

    /// Forward the reset to the child.
    pub fn reset(&mut self, model: &L::Model)
        ensures
            final(self).name == old(self).name,
            reset_rel(*old(self).node, *final(self).node),
        decreases node_height(*old(self).node) + 1,
    {
        self.node.reset(model);
    }
}

impl<L, W> Failer<L, W> where
    L: BehaviorTree,
    W: BehaviorTree<Model = L::Model, Controller = L::Controller>,
{
    /// Run or continue the child; report `Failed` for either decided
    /// child outcome, and relay a suspension unchanged.
    pub fn resume_with(
        &mut self,
        model: &L::Model,
        controller: &mut L::Controller,
        gas: &mut Option<i32>,
        audit: &mut Option<BehaviorTreeAudit>,
    ) -> (r: BehaviorTreeState)
        ensures
            resume_step_ok(*old(gas), *final(gas), *old(audit), *final(audit), r),
            audit_bracketed(*old(audit), *final(audit), old(self).name, r),
            exists|rc: BehaviorTreeState|
                #![all_triggers]
                node_resume_rel(
                    *old(self).node,
                    *old(gas),
                    *final(self).node,
                    *final(gas),
                    rc,
                ) && r == failer_outcome(rc),
            !(r is Complete),
            final(self).name == old(self).name,
            node_height(*final(self).node) == node_height(*old(self).node),
        decreases node_height(*old(self).node) + 1,
    {
        let ghost a0 = *audit;
        audit_enter(audit, &self.name);
        proof {
            lemma_audit_open_after_enter(a0, *audit, self.name);
        }
        let ghost a1 = *audit;
        let rc = self.node.resume_with(model, controller, gas, audit);
        match rc {
            BehaviorTreeState::Failed | BehaviorTreeState::Complete => {
                proof {
                    lemma_audit_open_step(a0, a1, *audit, self.name, rc);
                }
                let ghost a2 = *audit;
                let out = apply_failer_outcome(rc);
                proof {
                    assert(node_resume_rel(*old(self).node, *old(gas), *self.node, *gas, rc));
                }
                audit_exit(audit, &self.name, out);
                proof {
                    lemma_audit_open_exit(a0, a2, *audit, self.name, out);
                    lemma_audit_bracket_exit(a0, a2, *audit, self.name, out);
                }
                out
            },
            _ => {
                proof {
                    lemma_audit_open_suspend(a0, a1, *audit, self.name, rc);
                    lemma_audit_bracket_suspend(a0, a1, *audit, self.name, rc);
                    assert(node_resume_rel(*old(self).node, *old(gas), *self.node, *gas, rc));
                }
                rc
            },
        }
    }

    /// Forward the reset to the child.
    pub fn reset(&mut self, model: &L::Model)
        ensures
            final(self).name == old(self).name,
            reset_rel(*old(self).node, *final(self).node),
        decreases node_height(*old(self).node) + 1,
    {
        self.node.reset(model);
    }
}

impl<L, W> Inverter<L, W> where
    L: BehaviorTree,
    W: BehaviorTree<Model = L::Model, Controller = L::Controller>,
{
    /// Run or continue the child; swap a decided child outcome, and relay
    /// a suspension unchanged.
    pub fn resume_with(
        &mut self,
        model: &L::Model,
        controller: &mut L::Controller,
        gas: &mut Option<i32>,
        audit: &mut Option<BehaviorTreeAudit>,
    ) -> (r: BehaviorTreeState)
        ensures
            resume_step_ok(*old(gas), *final(gas), *old(audit), *final(audit), r),
            audit_bracketed(*old(audit), *final(audit), old(self).name, r),
            exists|rc: BehaviorTreeState|
                #![all_triggers]
                node_resume_rel(
                    *old(self).node,
                    *old(gas),
                    *final(self).node,
                    *final(gas),
                    rc,
                ) && r == inverter_outcome(rc),
            final(self).name == old(self).name,
            node_height(*final(self).node) == node_height(*old(self).node),
        decreases node_height(*old(self).node) + 1,
    {
        let ghost a0 = *audit;
        audit_enter(audit, &self.name);
        proof {
            lemma_audit_open_after_enter(a0, *audit, self.name);
        }
        let ghost a1 = *audit;
        let rc = self.node.resume_with(model, controller, gas, audit);
        match rc {
            BehaviorTreeState::Failed | BehaviorTreeState::Complete => {
                proof {
                    lemma_audit_open_step(a0, a1, *audit, self.name, rc);
                }
                let ghost a2 = *audit;
                let out = apply_inverter_outcome(rc);
                proof {
                    assert(node_resume_rel(*old(self).node, *old(gas), *self.node, *gas, rc));
                }
                audit_exit(audit, &self.name, out);
                proof {
                    lemma_audit_open_exit(a0, a2, *audit, self.name, out);
                    lemma_audit_bracket_exit(a0, a2, *audit, self.name, out);
                }
                out
            },
            _ => {
                proof {
                    lemma_audit_open_suspend(a0, a1, *audit, self.name, rc);
                    lemma_audit_bracket_suspend(a0, a1, *audit, self.name, rc);
                    assert(node_resume_rel(*old(self).node, *old(gas), *self.node, *gas, rc));
                }
                rc
            },
        }
    }

    /// Forward the reset to the child.
    pub fn reset(&mut self, model: &L::Model)
        ensures
            final(self).name == old(self).name,
            reset_rel(*old(self).node, *final(self).node),
        decreases node_height(*old(self).node) + 1,
    {
        self.node.reset(model);
    }
}

impl<L, W> Repeat<L, W> where
    L: BehaviorTree,
    W: BehaviorTree<Model = L::Model, Controller = L::Controller>,
{
    /// Run the child until the remaining count of owed completions drops
    /// to zero, looping within this call. A child failure restores the
    /// full count and fails immediately, with no partial credit; a
    /// suspension keeps the count earned so far for the next call.
    #[verifier::loop_isolation(false)]
    pub fn resume_with(
        &mut self,
        model: &L::Model,
        controller: &mut L::Controller,
        gas: &mut Option<i32>,
        audit: &mut Option<BehaviorTreeAudit>,
    ) -> (r: BehaviorTreeState)
        ensures
            resume_step_ok(*old(gas), *final(gas), *old(audit), *final(audit), r),
            audit_bracketed(*old(audit), *final(audit), old(self).name, r),
            final(self).name == old(self).name,
            final(self).runs == old(self).runs,
            node_height(*final(self).node) == node_height(*old(self).node),
            is_decided(r) ==> final(self).runs_left == final(self).runs,
            !is_decided(r) ==> 0 < final(self).runs_left <= old(self).runs_left,
            repeat_step_rel(*old(self), *old(gas), *final(self), *final(gas), r),
        decreases node_height(*old(self).node) + 1,
    {
        let ghost a0 = *audit;
        let ghost mut j: nat = 0;
        let ghost mut prev_node: BehaviorTreeNode<L, W> = *old(self).node;
        let ghost mut prev_gas: Option<i32> = *old(gas);
        audit_enter(audit, &self.name);
        proof {
            lemma_audit_open_after_enter(a0, *audit, self.name);
        }
        while self.runs_left > 0
            invariant
                self.name == old(self).name,
                self.runs == old(self).runs,
                self.runs_left <= old(self).runs_left,
                node_height(*self.node) == node_height(*old(self).node),
                audit_open_ok(a0, *audit, old(self).name),
                gas_step_ok(*old(gas), *gas),
                j == old(self).runs_left - self.runs_left,
                j == 0 ==> *self.node == *old(self).node && *gas == *old(gas),
                j > 0 ==> node_steps_chain(
                    *old(self).node,
                    *old(gas),
                    prev_node,
                    prev_gas,
                    (j - 1) as nat,
                    BehaviorTreeState::Complete,
                ) && node_resume_rel(
                    prev_node,
                    prev_gas,
                    *self.node,
                    *gas,
                    BehaviorTreeState::Complete,
                ),
            decreases self.runs_left,
        {
            let ghost amid = *audit;
            let ghost cur_node = *self.node;
            let ghost cur_gas = *gas;
            proof {
                if j > 0 {
                    assert(node_steps_chain(
                        *old(self).node,
                        *old(gas),
                        cur_node,
                        cur_gas,
                        j,
                        BehaviorTreeState::Complete,
                    ));
                } else {
                    assert(node_steps_chain(
                        *old(self).node,
                        *old(gas),
                        cur_node,
                        cur_gas,
                        0,
                        BehaviorTreeState::Complete,
                    ));
                }
            }
            let rc = self.node.resume_with(model, controller, gas, audit);
            match rc {
                BehaviorTreeState::Failed => {
                    proof {
                        lemma_audit_open_step(a0, amid, *audit, old(self).name, rc);
                        assert(node_run_rel(
                            *old(self).node,
                            *old(gas),
                            *self.node,
                            *gas,
                            j,
                            BehaviorTreeState::Complete,
                            rc,
                        ));
                    }
                    self.runs_left = self.runs;
                    let ghost a2 = *audit;
                    audit_exit(audit, &self.name, rc);
                    proof {
                        lemma_audit_open_exit(a0, a2, *audit, old(self).name, rc);
                        lemma_audit_bracket_exit(a0, a2, *audit, old(self).name, rc);
                    }
                    return rc;
                },
                BehaviorTreeState::Complete => {
                    proof {
                        lemma_audit_open_step(a0, amid, *audit, old(self).name, rc);
                        prev_node = cur_node;
                        prev_gas = cur_gas;
                        j = j + 1;
                    }
                    self.runs_left = self.runs_left - 1;
                },
                _ => {
                    proof {
                        lemma_audit_open_suspend(a0, amid, *audit, old(self).name, rc);
                        lemma_audit_bracket_suspend(a0, amid, *audit, old(self).name, rc);
                        assert(node_run_rel(
                            *old(self).node,
                            *old(gas),
                            *self.node,
                            *gas,
                            j,
                            BehaviorTreeState::Complete,
                            rc,
                        ));
                    }
                    return rc;
                },
            }
        }
        proof {
            if j > 0 {
                assert(node_run_rel(
                    *old(self).node,
                    *old(gas),
                    *self.node,
                    *gas,
                    (j - 1) as nat,
                    BehaviorTreeState::Complete,
                    BehaviorTreeState::Complete,
                ));
            }
        }
        self.runs_left = self.runs;
        let ghost a2 = *audit;
        audit_exit(audit, &self.name, BehaviorTreeState::Complete);
        proof {
            lemma_audit_open_exit(a0, a2, *audit, old(self).name, BehaviorTreeState::Complete);
            lemma_audit_bracket_exit(a0, a2, *audit, old(self).name, BehaviorTreeState::Complete);
        }
        BehaviorTreeState::Complete
    }

    /// Restore the count of owed completions; the child is left to be
    /// reset on its own.
    pub fn reset(&mut self, model: &L::Model)
        ensures
            final(self).name == old(self).name,
            final(self).node == old(self).node,
            final(self).runs == old(self).runs,
            final(self).runs_left == old(self).runs,
    {
        let _ = model;
        self.runs_left = self.runs;
    }
}

impl<L, W> RepeatUntilFail<L, W> where
    L: BehaviorTree,
    W: BehaviorTree<Model = L::Model, Controller = L::Controller>,
{
    /// Re-run the child within this call until it fails, which this node
    /// reports as `Complete`; a child completion never reaches the
    /// parent. A suspension is relayed unchanged, and after an
    /// astronomically large number of in-call iterations the node yields
    /// `Waiting` so that one call is guaranteed to return.
    #[verifier::loop_isolation(false)]
    pub fn resume_with(
        &mut self,
        model: &L::Model,
        controller: &mut L::Controller,
        gas: &mut Option<i32>,
        audit: &mut Option<BehaviorTreeAudit>,
    ) -> (r: BehaviorTreeState)
        ensures
            resume_step_ok(*old(gas), *final(gas), *old(audit), *final(audit), r),
            audit_bracketed(*old(audit), *final(audit), old(self).name, r),
            repeat_until_fail_step_rel(*old(self), *old(gas), *final(self), *final(gas), r),
            !(r is Failed),
            final(self).name == old(self).name,
            node_height(*final(self).node) == node_height(*old(self).node),
        decreases node_height(*old(self).node) + 1,
    {
        let ghost a0 = *audit;
        let ghost mut j: nat = 0;
        let ghost mut prev_node: BehaviorTreeNode<L, W> = *old(self).node;
        let ghost mut prev_gas: Option<i32> = *old(gas);
        audit_enter(audit, &self.name);
        proof {
            lemma_audit_open_after_enter(a0, *audit, self.name);
        }
        let mut fuel: u64 = DECORATOR_LOOP_FUEL;
        while fuel > 0
            invariant
                self.name == old(self).name,
                node_height(*self.node) == node_height(*old(self).node),
                audit_open_ok(a0, *audit, old(self).name),
                gas_step_ok(*old(gas), *gas),
                j == DECORATOR_LOOP_FUEL - fuel,
                j == 0 ==> *self.node == *old(self).node && *gas == *old(gas),
                j > 0 ==> node_steps_chain(
                    *old(self).node,
                    *old(gas),
                    prev_node,
                    prev_gas,
                    (j - 1) as nat,
                    BehaviorTreeState::Complete,
                ) && node_resume_rel(
                    prev_node,
                    prev_gas,
                    *self.node,
                    *gas,
                    BehaviorTreeState::Complete,
                ),
            decreases fuel,
        {
            let ghost amid = *audit;
            let ghost cur_node = *self.node;
            let ghost cur_gas = *gas;
            proof {
                if j > 0 {
                    assert(node_steps_chain(
                        *old(self).node,
                        *old(gas),
                        cur_node,
                        cur_gas,
                        j,
                        BehaviorTreeState::Complete,
                    ));
                } else {
                    assert(node_steps_chain(
                        *old(self).node,
                        *old(gas),
                        cur_node,
                        cur_gas,
                        0,
                        BehaviorTreeState::Complete,
                    ));
                }
            }
            let rc = self.node.resume_with(model, controller, gas, audit);
            match rc {
                BehaviorTreeState::Failed => {
                    proof {
                        lemma_audit_open_step(a0, amid, *audit, old(self).name, rc);
                        assert(node_run_rel(
                            *old(self).node,
                            *old(gas),
                            *self.node,
                            *gas,
                            j,
                            BehaviorTreeState::Complete,
                            rc,
                        ));
                    }
                    let ghost a2 = *audit;
                    audit_exit(audit, &self.name, BehaviorTreeState::Complete);
                    proof {
                        lemma_audit_open_exit(a0,
                            a2,
                            *audit,
                            old(self).name,
                            BehaviorTreeState::Complete,
                        );
                        lemma_audit_bracket_exit(a0,
                            a2,
                            *audit,
                            old(self).name,
                            BehaviorTreeState::Complete,
                        );
                    }
                    return BehaviorTreeState::Complete;
                },
                BehaviorTreeState::Complete => {
                    proof {
                        lemma_audit_open_step(a0, amid, *audit, old(self).name, rc);
                        prev_node = cur_node;
                        prev_gas = cur_gas;
                        j = j + 1;
                    }
                    fuel = fuel - 1;
                },
                _ => {
                    proof {
                        lemma_audit_open_suspend(a0, amid, *audit, old(self).name, rc);
                        lemma_audit_bracket_suspend(a0, amid, *audit, old(self).name, rc);
                        assert(node_run_rel(
                            *old(self).node,
                            *old(gas),
                            *self.node,
                            *gas,
                            j,
                            BehaviorTreeState::Complete,
                            rc,
                        ));
                    }
                    return rc;
                },
            }
        }
        proof {
            lemma_audit_open_yield(a0, *audit, old(self).name, BehaviorTreeState::Waiting);
            lemma_audit_bracket_yield(a0, *audit, old(self).name, BehaviorTreeState::Waiting);
            assert(node_steps_chain(
                *old(self).node,
                *old(gas),
                *self.node,
                *gas,
                j,
                BehaviorTreeState::Complete,
            ));
        }
        BehaviorTreeState::Waiting
    }

    /// Nothing to clear: this decorator stores no progress of its own.
    pub fn reset(&mut self, model: &L::Model)
        ensures
            *final(self) == *old(self),
    {
        let _ = model;
    }
}

impl<L, W> RepeatUntilSuccess<L, W> where
    L: BehaviorTree,
    W: BehaviorTree<Model = L::Model, Controller = L::Controller>,
{
    /// Re-run the child within this call until it completes; a child
    /// failure never reaches the parent. A suspension is relayed
    /// unchanged, and after an astronomically large number of in-call
    /// iterations the node yields `Waiting` so that one call is
    /// guaranteed to return.
    #[verifier::loop_isolation(false)]
    pub fn resume_with(
        &mut self,
        model: &L::Model,
        controller: &mut L::Controller,
        gas: &mut Option<i32>,
        audit: &mut Option<BehaviorTreeAudit>,
    ) -> (r: BehaviorTreeState)
        ensures
            resume_step_ok(*old(gas), *final(gas), *old(audit), *final(audit), r),
            audit_bracketed(*old(audit), *final(audit), old(self).name, r),
            repeat_until_success_step_rel(*old(self), *old(gas), *final(self), *final(gas), r),
            !(r is Failed),
            final(self).name == old(self).name,
            node_height(*final(self).node) == node_height(*old(self).node),
        decreases node_height(*old(self).node) + 1,
    {
        let ghost a0 = *audit;
        let ghost mut j: nat = 0;
        let ghost mut prev_node: BehaviorTreeNode<L, W> = *old(self).node;
        let ghost mut prev_gas: Option<i32> = *old(gas);
        audit_enter(audit, &self.name);
        proof {
            lemma_audit_open_after_enter(a0, *audit, self.name);
        }
        let mut fuel: u64 = DECORATOR_LOOP_FUEL;
        while fuel > 0
            invariant
                self.name == old(self).name,
                node_height(*self.node) == node_height(*old(self).node),
                audit_open_ok(a0, *audit, old(self).name),
                gas_step_ok(*old(gas), *gas),
                j == DECORATOR_LOOP_FUEL - fuel,
                j == 0 ==> *self.node == *old(self).node && *gas == *old(gas),
                j > 0 ==> node_steps_chain(
                    *old(self).node,
                    *old(gas),
                    prev_node,
                    prev_gas,
                    (j - 1) as nat,
                    BehaviorTreeState::Failed,
                ) && node_resume_rel(
                    prev_node,
                    prev_gas,
                    *self.node,
                    *gas,
                    BehaviorTreeState::Failed,
                ),
            decreases fuel,
        {
            let ghost amid = *audit;
            let ghost cur_node = *self.node;
            let ghost cur_gas = *gas;
            proof {
                if j > 0 {
                    assert(node_steps_chain(
                        *old(self).node,
                        *old(gas),
                        cur_node,
                        cur_gas,
                        j,
                        BehaviorTreeState::Failed,
                    ));
                } else {
                    assert(node_steps_chain(
                        *old(self).node,
                        *old(gas),
                        cur_node,
                        cur_gas,
                        0,
                        BehaviorTreeState::Failed,
                    ));
                }
            }
            let rc = self.node.resume_with(model, controller, gas, audit);
            match rc {
                BehaviorTreeState::Complete => {
                    proof {
                        lemma_audit_open_step(a0, amid, *audit, old(self).name, rc);
                        assert(node_run_rel(
                            *old(self).node,
                            *old(gas),
                            *self.node,
                            *gas,
                            j,
                            BehaviorTreeState::Failed,
                            rc,
                        ));
                    }
                    let ghost a2 = *audit;
                    audit_exit(audit, &self.name, BehaviorTreeState::Complete);
                    proof {
                        lemma_audit_open_exit(a0,
                            a2,
                            *audit,
                            old(self).name,
                            BehaviorTreeState::Complete,
                        );
                        lemma_audit_bracket_exit(a0,
                            a2,
                            *audit,
                            old(self).name,
                            BehaviorTreeState::Complete,
                        );
                    }
                    return BehaviorTreeState::Complete;
                },
                BehaviorTreeState::Failed => {
                    proof {
                        lemma_audit_open_step(a0, amid, *audit, old(self).name, rc);
                        prev_node = cur_node;
                        prev_gas = cur_gas;
                        j = j + 1;
                    }
                    fuel = fuel - 1;
                },
                _ => {
                    proof {
                        lemma_audit_open_suspend(a0, amid, *audit, old(self).name, rc);
                        lemma_audit_bracket_suspend(a0, amid, *audit, old(self).name, rc);
                        assert(node_run_rel(
                            *old(self).node,
                            *old(gas),
                            *self.node,
                            *gas,
                            j,
                            BehaviorTreeState::Failed,
                            rc,
                        ));
                    }
                    return rc;
                },
            }
        }
        proof {
            lemma_audit_open_yield(a0, *audit, old(self).name, BehaviorTreeState::Waiting);
            lemma_audit_bracket_yield(a0, *audit, old(self).name, BehaviorTreeState::Waiting);
            assert(node_steps_chain(
                *old(self).node,
                *old(gas),
                *self.node,
                *gas,
                j,
                BehaviorTreeState::Failed,
            ));
        }
        BehaviorTreeState::Waiting
    }

    /// Nothing to clear: this decorator stores no progress of its own.
    pub fn reset(&mut self, model: &L::Model)
        ensures
            *final(self) == *old(self),
    {
        let _ = model;
    }
}

impl<L, W> Sequence<L, W> where
    L: BehaviorTree,
    W: BehaviorTree<Model = L::Model, Controller = L::Controller>,
{
    /// Run the children left to right from the stored resume point. A
    /// child completion moves on within this call; a child failure clears
    /// the stored index and fails the whole sequence; a suspension stores
    /// the current index so the next call re-enters exactly that child;
    /// running past the last child completes and clears the index.
    #[verifier::loop_isolation(false)]
    pub fn resume_with(
        &mut self,
        model: &L::Model,
        controller: &mut L::Controller,
        gas: &mut Option<i32>,
        audit: &mut Option<BehaviorTreeAudit>,
    ) -> (r: BehaviorTreeState)
        ensures
            resume_step_ok(*old(gas), *final(gas), *old(audit), *final(audit), r),
            audit_bracketed(*old(audit), *final(audit), old(self).name, r),
            sequence_step_rel(*old(self), *old(gas), *final(self), *final(gas), r),
            final(self).name == old(self).name,
            final(self).nodes@.len() == old(self).nodes@.len(),
            node_seq_height(final(self).nodes@) == node_seq_height(old(self).nodes@),
            forall|k: int|
                0 <= k < list_resume_start(old(self).index, old(self).nodes@.len()) ==> final(self).nodes@[k] == old(self).nodes@[k],
            is_decided(r) ==> final(self).index is None,
            !is_decided(r) ==> (final(self).index matches Option::Some(j) && list_resume_start(
                old(self).index,
                old(self).nodes@.len(),
            ) <= j < old(self).nodes@.len() && (forall|k: int|
                j < k < old(self).nodes@.len() ==> final(self).nodes@[k] == old(self).nodes@[k])),
        decreases node_seq_height(old(self).nodes@),
    {
        let ghost a0 = *audit;
        audit_enter(audit, &self.name);
        proof {
            lemma_audit_open_after_enter(a0, *audit, self.name);
        }
        let n = self.nodes.len();
        let mut running_index: usize = match self.index {
            Option::Some(i) => if i < n {
                i
            } else {
                n
            },
            Option::None => 0,
        };
        let ghost start = running_index as int;
        while running_index < self.nodes.len()
            invariant
                self.name == old(self).name,
                self.index == old(self).index,
                self.nodes@.len() == old(self).nodes@.len(),
                start == list_resume_start(old(self).index, old(self).nodes@.len()),
                start <= running_index as int <= self.nodes@.len(),
                forall|k: int|
                    0 <= k < old(self).nodes@.len() && !(start <= k < running_index as int)
                        ==> #[trigger] self.nodes@[k] == old(self).nodes@[k],
                forall|k: int|
                    0 <= k < old(self).nodes@.len() ==> node_height(#[trigger] self.nodes@[k])
                        == node_height(old(self).nodes@[k]),
                audit_open_ok(a0, *audit, old(self).name),
                gas_step_ok(*old(gas), *gas),
                list_children_run(
                    old(self).nodes@,
                    *old(gas),
                    self.nodes@,
                    *gas,
                    start,
                    running_index as int,
                    BehaviorTreeState::Complete,
                ),
            decreases self.nodes@.len() - running_index,
        {
            proof {
                lemma_node_seq_height_elem(old(self).nodes@, running_index as int);
            }
            let ghost amid = *audit;
            let ghost prior_nodes = self.nodes@;
            let ghost prior_gas = *gas;
            let ghost ri = running_index as int;
            let child = &mut self.nodes[running_index];
            let rc = child.resume_with(model, controller, gas, audit);
            match rc {
                BehaviorTreeState::Complete => {
                    proof {
                        lemma_audit_open_step(a0, amid, *audit, old(self).name, rc);
                        assert(self.nodes@.update(ri, prior_nodes[ri]) =~= prior_nodes);
                        assert(0 <= ri < self.nodes@.len() && list_children_run(
                            old(self).nodes@,
                            *old(gas),
                            self.nodes@.update(ri, prior_nodes[ri]),
                            prior_gas,
                            start,
                            ri,
                            BehaviorTreeState::Complete,
                        ) && node_resume_rel(
                            prior_nodes[ri],
                            prior_gas,
                            self.nodes@[ri],
                            *gas,
                            BehaviorTreeState::Complete,
                        ));
                        assert(list_children_run(
                            old(self).nodes@,
                            *old(gas),
                            self.nodes@,
                            *gas,
                            start,
                            ri + 1,
                            BehaviorTreeState::Complete,
                        ));
                    }
                    running_index = running_index + 1;
                },
                BehaviorTreeState::Failed => {
                    proof {
                        lemma_audit_open_step(a0, amid, *audit, old(self).name, rc);
                        lemma_node_seq_height_congruent(self.nodes@, old(self).nodes@);
                        assert(self.nodes@.update(ri, prior_nodes[ri]) =~= prior_nodes);
                        assert(list_run_terminal(
                            old(self).nodes@,
                            *old(gas),
                            self.nodes@,
                            *gas,
                            start,
                            ri,
                            BehaviorTreeState::Complete,
                            rc,
                        ));
                    }
                    self.index = Option::None;
                    let ghost a2 = *audit;
                    audit_exit(audit, &self.name, rc);
                    proof {
                        lemma_audit_open_exit(a0, a2, *audit, old(self).name, rc);
                        lemma_audit_bracket_exit(a0, a2, *audit, old(self).name, rc);
                    }
                    return rc;
                },
                _ => {
                    proof {
                        lemma_audit_open_suspend(a0, amid, *audit, old(self).name, rc);
                        lemma_audit_bracket_suspend(a0, amid, *audit, old(self).name, rc);
                        lemma_node_seq_height_congruent(self.nodes@, old(self).nodes@);
                        assert(self.nodes@.update(ri, prior_nodes[ri]) =~= prior_nodes);
                        assert(list_run_terminal(
                            old(self).nodes@,
                            *old(gas),
                            self.nodes@,
                            *gas,
                            start,
                            ri,
                            BehaviorTreeState::Complete,
                            rc,
                        ));
                    }
                    self.index = Option::Some(running_index);
                    return rc;
                },
            }
        }
        proof {
            lemma_node_seq_height_congruent(self.nodes@, old(self).nodes@);
        }
        self.index = Option::None;
        let ghost a2 = *audit;
        audit_exit(audit, &self.name, BehaviorTreeState::Complete);
        proof {
            lemma_audit_open_exit(a0, a2, *audit, old(self).name, BehaviorTreeState::Complete);
            lemma_audit_bracket_exit(a0, a2, *audit, old(self).name, BehaviorTreeState::Complete);
        }
        BehaviorTreeState::Complete
    }

    /// Forget the stored resume index; the children are left to be reset
    /// on their own.
    pub fn reset(&mut self, model: &L::Model)
        ensures
            final(self).name == old(self).name,
            final(self).nodes == old(self).nodes,
            final(self).index is None,
    {
        let _ = model;
        self.index = Option::None;
    }
}

impl<L, W> Selector<L, W> where
    L: BehaviorTree,
    W: BehaviorTree<Model = L::Model, Controller = L::Controller>,
{
    /// Run the children left to right from the stored resume point. A
    /// child completion clears the stored index and completes the whole
    /// selector; a child failure moves on within this call; a suspension
    /// stores the current index so the next call re-enters exactly that
    /// child; running past the last child fails and clears the index.
    #[verifier::loop_isolation(false)]
    pub fn resume_with(
        &mut self,
        model: &L::Model,
        controller: &mut L::Controller,
        gas: &mut Option<i32>,
        audit: &mut Option<BehaviorTreeAudit>,
    ) -> (r: BehaviorTreeState)
        ensures
            resume_step_ok(*old(gas), *final(gas), *old(audit), *final(audit), r),
            audit_bracketed(*old(audit), *final(audit), old(self).name, r),
            selector_step_rel(*old(self), *old(gas), *final(self), *final(gas), r),
            final(self).name == old(self).name,
            final(self).nodes@.len() == old(self).nodes@.len(),
            node_seq_height(final(self).nodes@) == node_seq_height(old(self).nodes@),
            forall|k: int|
                0 <= k < list_resume_start(old(self).index, old(self).nodes@.len()) ==> final(self).nodes@[k] == old(self).nodes@[k],
            is_decided(r) ==> final(self).index is None,
            !is_decided(r) ==> (final(self).index matches Option::Some(j) && list_resume_start(
                old(self).index,
                old(self).nodes@.len(),
            ) <= j < old(self).nodes@.len() && (forall|k: int|
                j < k < old(self).nodes@.len() ==> final(self).nodes@[k] == old(self).nodes@[k])),
        decreases node_seq_height(old(self).nodes@),
    {
        let ghost a0 = *audit;
        audit_enter(audit, &self.name);
        proof {
            lemma_audit_open_after_enter(a0, *audit, self.name);
        }
        let n = self.nodes.len();
        let mut running_index: usize = match self.index {
            Option::Some(i) => if i < n {
                i
            } else {
                n
            },
            Option::None => 0,
        };
        let ghost start = running_index as int;
        while running_index < self.nodes.len()
            invariant
                self.name == old(self).name,
                self.index == old(self).index,
                self.nodes@.len() == old(self).nodes@.len(),
                start == list_resume_start(old(self).index, old(self).nodes@.len()),
                start <= running_index as int <= self.nodes@.len(),
                forall|k: int|
                    0 <= k < old(self).nodes@.len() && !(start <= k < running_index as int)
                        ==> #[trigger] self.nodes@[k] == old(self).nodes@[k],
                forall|k: int|
                    0 <= k < old(self).nodes@.len() ==> node_height(#[trigger] self.nodes@[k])
                        == node_height(old(self).nodes@[k]),
                audit_open_ok(a0, *audit, old(self).name),
                gas_step_ok(*old(gas), *gas),
                list_children_run(
                    old(self).nodes@,
                    *old(gas),
                    self.nodes@,
                    *gas,
                    start,
                    running_index as int,
                    BehaviorTreeState::Failed,
                ),
            decreases self.nodes@.len() - running_index,
        {
            proof {
                lemma_node_seq_height_elem(old(self).nodes@, running_index as int);
            }
            let ghost amid = *audit;
            let ghost prior_nodes = self.nodes@;
            let ghost prior_gas = *gas;
            let ghost ri = running_index as int;
            let child = &mut self.nodes[running_index];
            let rc = child.resume_with(model, controller, gas, audit);
            match rc {
                BehaviorTreeState::Failed => {
                    proof {
                        lemma_audit_open_step(a0, amid, *audit, old(self).name, rc);
                        assert(self.nodes@.update(ri, prior_nodes[ri]) =~= prior_nodes);
                        assert(0 <= ri < self.nodes@.len() && list_children_run(
                            old(self).nodes@,
                            *old(gas),
                            self.nodes@.update(ri, prior_nodes[ri]),
                            prior_gas,
                            start,
                            ri,
                            BehaviorTreeState::Failed,
                        ) && node_resume_rel(
                            prior_nodes[ri],
                            prior_gas,
                            self.nodes@[ri],
                            *gas,
                            BehaviorTreeState::Failed,
                        ));
                        assert(list_children_run(
                            old(self).nodes@,
                            *old(gas),
                            self.nodes@,
                            *gas,
                            start,
                            ri + 1,
                            BehaviorTreeState::Failed,
                        ));
                    }
                    running_index = running_index + 1;
                },
                BehaviorTreeState::Complete => {
                    proof {
                        lemma_audit_open_step(a0, amid, *audit, old(self).name, rc);
                        lemma_node_seq_height_congruent(self.nodes@, old(self).nodes@);
                        assert(self.nodes@.update(ri, prior_nodes[ri]) =~= prior_nodes);
                        assert(list_run_terminal(
                            old(self).nodes@,
                            *old(gas),
                            self.nodes@,
                            *gas,
                            start,
                            ri,
                            BehaviorTreeState::Failed,
                            rc,
                        ));
                    }
                    self.index = Option::None;
                    let ghost a2 = *audit;
                    audit_exit(audit, &self.name, rc);
                    proof {
                        lemma_audit_open_exit(a0, a2, *audit, old(self).name, rc);
                        lemma_audit_bracket_exit(a0, a2, *audit, old(self).name, rc);
                    }
                    return rc;
                },
                _ => {
                    proof {
                        lemma_audit_open_suspend(a0, amid, *audit, old(self).name, rc);
                        lemma_audit_bracket_suspend(a0, amid, *audit, old(self).name, rc);
                        lemma_node_seq_height_congruent(self.nodes@, old(self).nodes@);
                        assert(self.nodes@.update(ri, prior_nodes[ri]) =~= prior_nodes);
                        assert(list_run_terminal(
                            old(self).nodes@,
                            *old(gas),
                            self.nodes@,
                            *gas,
                            start,
                            ri,
                            BehaviorTreeState::Failed,
                            rc,
                        ));
                    }
                    self.index = Option::Some(running_index);
                    return rc;
                },
            }
        }
        proof {
            lemma_node_seq_height_congruent(self.nodes@, old(self).nodes@);
        }
        self.index = Option::None;
        let ghost a2 = *audit;
        audit_exit(audit, &self.name, BehaviorTreeState::Failed);
        proof {
            lemma_audit_open_exit(a0, a2, *audit, old(self).name, BehaviorTreeState::Failed);
            lemma_audit_bracket_exit(a0, a2, *audit, old(self).name, BehaviorTreeState::Failed);
        }
        BehaviorTreeState::Failed
    }

    /// Forget the stored resume index; the children are left to be reset
    /// on their own.
    pub fn reset(&mut self, model: &L::Model)
        ensures
            final(self).name == old(self).name,
            final(self).nodes == old(self).nodes,
            final(self).index is None,
    {
        let _ = model;
        self.index = Option::None;
    }
}

impl<L, W> BehaviorTreeNode<L, W> where
    L: BehaviorTree,
    W: BehaviorTree<Model = L::Model, Controller = L::Controller>,
{
    /// Run or continue whichever node this is.
    pub fn resume_with(
        &mut self,
        model: &L::Model,
        controller: &mut L::Controller,
        gas: &mut Option<i32>,
        audit: &mut Option<BehaviorTreeAudit>,
    ) -> (r: BehaviorTreeState)
        ensures
            resume_step_ok(*old(gas), *final(gas), *old(audit), *final(audit), r),
            node_height(*final(self)) == node_height(*old(self)),
            node_resume_rel(*old(self), *old(gas), *final(self), *final(gas), r),
            (*old(self)) is Sequence ==> sequence_step_rel(
                (*old(self))->Sequence_0,
                *old(gas),
                (*final(self))->Sequence_0,
                *final(gas),
                r,
            ),
            (*old(self)) is Selector ==> selector_step_rel(
                (*old(self))->Selector_0,
                *old(gas),
                (*final(self))->Selector_0,
                *final(gas),
                r,
            ),
            (*old(self)) is Repeat ==> repeat_step_rel(
                (*old(self))->Repeat_0,
                *old(gas),
                (*final(self))->Repeat_0,
                *final(gas),
                r,
            ),
            (*old(self)) is RepeatUntilFail ==> repeat_until_fail_step_rel(
                (*old(self))->RepeatUntilFail_0,
                *old(gas),
                (*final(self))->RepeatUntilFail_0,
                *final(gas),
                r,
            ),
            (*old(self)) is RepeatUntilSuccess ==> repeat_until_success_step_rel(
                (*old(self))->RepeatUntilSuccess_0,
                *old(gas),
                (*final(self))->RepeatUntilSuccess_0,
                *final(gas),
                r,
            ),
        decreases node_height(*old(self)),
    {
        match self {
            BehaviorTreeNode::Sequence(s) => {
                let r = s.resume_with(model, controller, gas, audit);
                proof {
                    assert((*self) is Sequence);
                    assert(node_resume_rel(*old(self), *old(gas), *self, *gas, r));
                    assert(sequence_step_rel(
                        (*old(self))->Sequence_0,
                        *old(gas),
                        (*self)->Sequence_0,
                        *gas,
                        r,
                    ));
                }
                r
            },
            BehaviorTreeNode::Selector(s) => {
                let r = s.resume_with(model, controller, gas, audit);
                proof {
                    assert((*self) is Selector);
                    assert(node_resume_rel(*old(self), *old(gas), *self, *gas, r));
                    assert(selector_step_rel(
                        (*old(self))->Selector_0,
                        *old(gas),
                        (*self)->Selector_0,
                        *gas,
                        r,
                    ));
                }
                r
            },
            BehaviorTreeNode::Repeat(d) => {
                let r = d.resume_with(model, controller, gas, audit);
                proof {
                    assert((*self) is Repeat);
                    assert(node_resume_rel(*old(self), *old(gas), *self, *gas, r));
                    assert(repeat_step_rel(
                        (*old(self))->Repeat_0,
                        *old(gas),
                        (*self)->Repeat_0,
                        *gas,
                        r,
                    ));
                }
                r
            },
            BehaviorTreeNode::RepeatUntilSuccess(d) => {
                let r = d.resume_with(model, controller, gas, audit);
                proof {
                    assert((*self) is RepeatUntilSuccess);
                    assert(node_resume_rel(*old(self), *old(gas), *self, *gas, r));
                    assert(repeat_until_success_step_rel(
                        (*old(self))->RepeatUntilSuccess_0,
                        *old(gas),
                        (*self)->RepeatUntilSuccess_0,
                        *gas,
                        r,
                    ));
                }
                r
            },
            BehaviorTreeNode::RepeatUntilFail(d) => {
                let r = d.resume_with(model, controller, gas, audit);
                proof {
                    assert((*self) is RepeatUntilFail);
                    assert(node_resume_rel(*old(self), *old(gas), *self, *gas, r));
                    assert(repeat_until_fail_step_rel(
                        (*old(self))->RepeatUntilFail_0,
                        *old(gas),
                        (*self)->RepeatUntilFail_0,
                        *gas,
                        r,
                    ));
                }
                r
            },
            BehaviorTreeNode::Succeeder(d) => {
                let r = d.resume_with(model, controller, gas, audit);
                proof {
                    assert((*self) is Succeeder);
                    assert(node_resume_rel(*old(self), *old(gas), *self, *gas, r));
                }
                r
            },
            BehaviorTreeNode::Failer(d) => {
                let r = d.resume_with(model, controller, gas, audit);
                proof {
                    assert((*self) is Failer);
                    assert(node_resume_rel(*old(self), *old(gas), *self, *gas, r));
                }
                r
            },
            BehaviorTreeNode::Inverter(d) => {
                let r = d.resume_with(model, controller, gas, audit);
                proof {
                    assert((*self) is Inverter);
                    assert(node_resume_rel(*old(self), *old(gas), *self, *gas, r));
                }
                r
            },
            BehaviorTreeNode::User(l) => {
                let r = l.resume_with(model, controller, gas, audit);
                proof {
                    assert((*self) is User);
                    assert(node_resume_rel(*old(self), *old(gas), *self, *gas, r));
                }
                r
            },
            BehaviorTreeNode::Wrapper(w) => {
                let r = w.resume_with(model, controller, gas, audit);
                proof {
                    assert((*self) is Wrapper);
                    assert(node_resume_rel(*old(self), *old(gas), *self, *gas, r));
                }
                r
            },
        }
    }

    /// Clear whatever progress this node stores, by its own policy.
    pub fn reset(&mut self, model: &L::Model)
        ensures
            reset_rel(*old(self), *final(self)),
        decreases node_height(*old(self)),
    {
        match self {
            BehaviorTreeNode::Sequence(s) => s.reset(model),
            BehaviorTreeNode::Selector(s) => s.reset(model),
            BehaviorTreeNode::Repeat(d) => d.reset(model),
            BehaviorTreeNode::RepeatUntilSuccess(d) => d.reset(model),
            BehaviorTreeNode::RepeatUntilFail(d) => d.reset(model),
            BehaviorTreeNode::Succeeder(d) => d.reset(model),
            BehaviorTreeNode::Failer(d) => d.reset(model),
            BehaviorTreeNode::Inverter(d) => d.reset(model),
            BehaviorTreeNode::User(l) => l.reset(model),
            BehaviorTreeNode::Wrapper(w) => w.reset(model),
        }
    }

    /// The stable identifier of whichever node this is.
    pub fn get_name(&self) -> &String {
        match self {
            BehaviorTreeNode::Sequence(s) => &s.name,
            BehaviorTreeNode::Selector(s) => &s.name,
            BehaviorTreeNode::Repeat(d) => &d.name,
            BehaviorTreeNode::RepeatUntilSuccess(d) => &d.name,
            BehaviorTreeNode::RepeatUntilFail(d) => &d.name,
            BehaviorTreeNode::Succeeder(d) => &d.name,
            BehaviorTreeNode::Failer(d) => &d.name,
            BehaviorTreeNode::Inverter(d) => &d.name,
            BehaviorTreeNode::User(l) => l.get_name(),
            BehaviorTreeNode::Wrapper(w) => w.get_name(),
        }
    }
}

} // verus!
