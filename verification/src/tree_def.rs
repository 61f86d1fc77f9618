use vstd::prelude::*;

use crate::audit::BehaviorTreeAudit;
use crate::ids::get_bt_id;
use crate::nodes::resume_step_ok;
use crate::nodes::BehaviorTree;
use crate::nodes::node_is_fresh;
use crate::nodes::node_resume_rel;
use crate::nodes::node_seq_is_fresh;
use crate::nodes::BehaviorTreeNode;
use crate::nodes::Failer;
use crate::nodes::Inverter;
use crate::nodes::Repeat;
use crate::nodes::RepeatUntilFail;
use crate::nodes::RepeatUntilSuccess;
use crate::nodes::Selector;
use crate::nodes::Sequence;
use crate::nodes::Succeeder;
use crate::state::BehaviorTreeState;

verus! {

/// A caller-supplied description of one leaf: what model and controller
/// it works against, and how to build a fresh live leaf node from it.
pub trait UserNodeDefinition {
    type Model;

    type Controller;

    type Node: BehaviorTree<Model = Self::Model, Controller = Self::Controller>;

    fn create_node(&self) -> Self::Node;
}

/// Every cloneable node is its own definition: compiling it clones it.
impl<D> UserNodeDefinition for D where D: BehaviorTree + Clone {
    type Model = D::Model;

    type Controller = D::Controller;

    type Node = D;

    fn create_node(&self) -> D {
        self.clone()
    }
}

/// A caller-supplied description of one n-ary wrapper node: given the
/// already-compiled children, it must build a single live node that
/// honors the node contract for all of them. Registration is by
/// implementing this trait; a definition whose wrapper type has no real
/// implementation cannot be compiled at all, so a tree is never built
/// with its children silently dropped.
pub trait UserWrapperDefinition<U: UserNodeDefinition> {
    type Node: BehaviorTree<Model = U::Model, Controller = U::Controller>;

    fn create_node_and_wrap(
        &self,
        nodes: Vec<BehaviorTreeNode<U::Node, Self::Node>>,
    ) -> Self::Node;
}

/// An immutable, data-only description of a tree's topology: a tagged
/// choice among the structural nodes of this library, an opaque user
/// leaf, or a user wrapper with children. Compiling it with
/// `create_tree` yields a fresh, independent live tree.
pub enum BehaviorTreeDef<U, W> {
    Sequence(Vec<BehaviorTreeDef<U, W>>),
    Selector(Vec<BehaviorTreeDef<U, W>>),
    Repeat(Box<BehaviorTreeDef<U, W>>, usize),
    RepeatUntilSuccess(Box<BehaviorTreeDef<U, W>>),
    RepeatUntilFail(Box<BehaviorTreeDef<U, W>>),
    Succeeder(Box<BehaviorTreeDef<U, W>>),
    Failer(Box<BehaviorTreeDef<U, W>>),
    Inverter(Box<BehaviorTreeDef<U, W>>),
    User(U),
    Wrapper(W, Vec<BehaviorTreeDef<U, W>>),
}

/// Structural height of a definition, the measure for the recursion
/// through it.
pub open spec fn def_height<U, W>(def: BehaviorTreeDef<U, W>) -> nat
    decreases def,
{
    match def {
        BehaviorTreeDef::Sequence(ds) => def_seq_height(ds@) + 1,
        BehaviorTreeDef::Selector(ds) => def_seq_height(ds@) + 1,
        BehaviorTreeDef::Repeat(d, _) => def_height(*d) + 1,
        BehaviorTreeDef::RepeatUntilSuccess(d) => def_height(*d) + 1,
        BehaviorTreeDef::RepeatUntilFail(d) => def_height(*d) + 1,
        BehaviorTreeDef::Succeeder(d) => def_height(*d) + 1,
        BehaviorTreeDef::Failer(d) => def_height(*d) + 1,
        BehaviorTreeDef::Inverter(d) => def_height(*d) + 1,
        BehaviorTreeDef::User(_) => 0,
        BehaviorTreeDef::Wrapper(_, ds) => def_seq_height(ds@) + 1,
    }
}

/// Combined structural height of a list of child definitions.
pub open spec fn def_seq_height<U, W>(s: Seq<BehaviorTreeDef<U, W>>) -> nat
    decreases s,
{
    if s.len() == 0 {
        0
    } else {
        def_seq_height(s.drop_last()) + def_height(s.last()) + 1
    }
}

/// Each child definition stands strictly below the list's combined
/// height.
pub proof fn lemma_def_seq_height_elem<U, W>(s: Seq<BehaviorTreeDef<U, W>>, i: int)
    requires
        0 <= i < s.len(),
    ensures
        def_height(s[i]) < def_seq_height(s),
    decreases s.len(),
{
    if i == s.len() - 1 {
    } else {
        lemma_def_seq_height_elem(s.drop_last(), i);
        assert(s.drop_last()[i] == s[i]);
    }
}

impl<U: Clone, W: Clone> BehaviorTreeDef<U, W> {
    /// An independent copy of this definition, built variant for variant;
    /// leaf and wrapper payloads are cloned by their own types.
    #[verifier::loop_isolation(false)]
    pub fn duplicate(&self) -> (r: BehaviorTreeDef<U, W>)
        decreases def_height(*self),
    {
        match self {
            BehaviorTreeDef::Sequence(defs) => {
                let mut copies: Vec<BehaviorTreeDef<U, W>> = Vec::new();
                let mut i: usize = 0;
                while i < defs.len()
                    decreases defs@.len() - i,
                {
                    proof {
                        lemma_def_seq_height_elem(defs@, i as int);
                    }
                    copies.push(defs[i].duplicate());
                    i = i + 1;
                }
                BehaviorTreeDef::Sequence(copies)
            },
            BehaviorTreeDef::Selector(defs) => {
                let mut copies: Vec<BehaviorTreeDef<U, W>> = Vec::new();
                let mut i: usize = 0;
                while i < defs.len()
                    decreases defs@.len() - i,
                {
                    proof {
                        lemma_def_seq_height_elem(defs@, i as int);
                    }
                    copies.push(defs[i].duplicate());
                    i = i + 1;
                }
                BehaviorTreeDef::Selector(copies)
            },
            BehaviorTreeDef::Repeat(d, n) => BehaviorTreeDef::Repeat(
                Box::new(d.duplicate()),
                *n,
            ),
            BehaviorTreeDef::RepeatUntilSuccess(d) => BehaviorTreeDef::RepeatUntilSuccess(
                Box::new(d.duplicate()),
            ),
            BehaviorTreeDef::RepeatUntilFail(d) => BehaviorTreeDef::RepeatUntilFail(
                Box::new(d.duplicate()),
            ),
            BehaviorTreeDef::Succeeder(d) => BehaviorTreeDef::Succeeder(Box::new(d.duplicate())),
            BehaviorTreeDef::Failer(d) => BehaviorTreeDef::Failer(Box::new(d.duplicate())),
            BehaviorTreeDef::Inverter(d) => BehaviorTreeDef::Inverter(Box::new(d.duplicate())),
            BehaviorTreeDef::User(u) => BehaviorTreeDef::User(u.clone()),
            BehaviorTreeDef::Wrapper(w, defs) => {
                let mut copies: Vec<BehaviorTreeDef<U, W>> = Vec::new();
                let mut i: usize = 0;
                while i < defs.len()
                    decreases defs@.len() - i,
                {
                    proof {
                        lemma_def_seq_height_elem(defs@, i as int);
                    }
                    copies.push(defs[i].duplicate());
                    i = i + 1;
                }
                BehaviorTreeDef::Wrapper(w.clone(), copies)
            },
        }
    }
}

impl<U: Clone, W: Clone> Clone for BehaviorTreeDef<U, W> {
    /// An independent copy of this definition.
    fn clone(&self) -> Self {
        self.duplicate()
    }
}

/// The live tree a definition compiles to: each structural variant maps
/// to the corresponding live node with fresh progress state (no stored
/// resume index, a full repeat counter), child for child; what a user
/// leaf or wrapper definition builds is its own business.
pub open spec fn compiled_from<U, W>(
    def: BehaviorTreeDef<U, W>,
    node: BehaviorTreeNode<U::Node, W::Node>,
) -> bool where U: UserNodeDefinition, W: UserWrapperDefinition<U>
    decreases def,
{
    match (def, node) {
        (BehaviorTreeDef::Sequence(ds), BehaviorTreeNode::Sequence(s)) => s.index is None
            && compiled_seq_from(ds@, s.nodes@),
        (BehaviorTreeDef::Selector(ds), BehaviorTreeNode::Selector(s)) => s.index is None
            && compiled_seq_from(ds@, s.nodes@),
        (BehaviorTreeDef::Repeat(d, n), BehaviorTreeNode::Repeat(rp)) => rp.runs == n
            && rp.runs_left == n && compiled_from(*d, *rp.node),
        (
            BehaviorTreeDef::RepeatUntilSuccess(d),
            BehaviorTreeNode::RepeatUntilSuccess(rp),
        ) => compiled_from(*d, *rp.node),
        (BehaviorTreeDef::RepeatUntilFail(d), BehaviorTreeNode::RepeatUntilFail(rp)) =>
            compiled_from(*d, *rp.node),
        (BehaviorTreeDef::Succeeder(d), BehaviorTreeNode::Succeeder(rp)) => compiled_from(
            *d,
            *rp.node,
        ),
        (BehaviorTreeDef::Failer(d), BehaviorTreeNode::Failer(rp)) => compiled_from(
            *d,
            *rp.node,
        ),
        (BehaviorTreeDef::Inverter(d), BehaviorTreeNode::Inverter(rp)) => compiled_from(
            *d,
            *rp.node,
        ),
        (BehaviorTreeDef::User(_), BehaviorTreeNode::User(_)) => true,
        (BehaviorTreeDef::Wrapper(_, _), BehaviorTreeNode::Wrapper(_)) => true,
        _ => false,
    }
}

/// Children compile child for child, in order.
pub open spec fn compiled_seq_from<U, W>(
    ds: Seq<BehaviorTreeDef<U, W>>,
    ns: Seq<BehaviorTreeNode<U::Node, W::Node>>,
) -> bool where U: UserNodeDefinition, W: UserWrapperDefinition<U>
    decreases ds,
{
    ds.len() == ns.len() && (ds.len() == 0 || (compiled_from(ds.last(), ns.last())
        && compiled_seq_from(ds.drop_last(), ns.drop_last())))
}

/// Child-for-child compilation follows from compilation at every index.
pub proof fn lemma_compiled_seq_from_indices<U, W>(
    ds: Seq<BehaviorTreeDef<U, W>>,
    ns: Seq<BehaviorTreeNode<U::Node, W::Node>>,
) where U: UserNodeDefinition, W: UserWrapperDefinition<U>
    requires
        ds.len() == ns.len(),
        forall|k: int| 0 <= k < ds.len() ==> compiled_from(ds[k], #[trigger] ns[k]),
    ensures
        compiled_seq_from(ds, ns),
    decreases ds.len(),
{
    if ds.len() > 0 {
        lemma_compiled_seq_from_indices(ds.drop_last(), ns.drop_last());
    }
}

/// Whatever a definition compiles to starts fresh: no resume index is
/// stored and every repeat counter is full, all the way down the
/// library-owned part of the tree.
pub proof fn lemma_compiled_is_fresh<U, W>(
    def: BehaviorTreeDef<U, W>,
    node: BehaviorTreeNode<U::Node, W::Node>,
) where U: UserNodeDefinition, W: UserWrapperDefinition<U>
    requires
        compiled_from(def, node),
    ensures
        node_is_fresh(node),
    decreases def_height(def),
{
    match (def, node) {
        (BehaviorTreeDef::Sequence(ds), BehaviorTreeNode::Sequence(s)) => {
            lemma_compiled_seq_is_fresh(ds@, s.nodes@);
        },
        (BehaviorTreeDef::Selector(ds), BehaviorTreeNode::Selector(s)) => {
            lemma_compiled_seq_is_fresh(ds@, s.nodes@);
        },
        (BehaviorTreeDef::Repeat(d, _), BehaviorTreeNode::Repeat(rp)) => {
            lemma_compiled_is_fresh(*d, *rp.node);
        },
        (BehaviorTreeDef::RepeatUntilSuccess(d), BehaviorTreeNode::RepeatUntilSuccess(rp)) => {
            lemma_compiled_is_fresh(*d, *rp.node);
        },
        (BehaviorTreeDef::RepeatUntilFail(d), BehaviorTreeNode::RepeatUntilFail(rp)) => {
            lemma_compiled_is_fresh(*d, *rp.node);
        },
        (BehaviorTreeDef::Succeeder(d), BehaviorTreeNode::Succeeder(rp)) => {
            lemma_compiled_is_fresh(*d, *rp.node);
        },
        (BehaviorTreeDef::Failer(d), BehaviorTreeNode::Failer(rp)) => {
            lemma_compiled_is_fresh(*d, *rp.node);
        },
        (BehaviorTreeDef::Inverter(d), BehaviorTreeNode::Inverter(rp)) => {
            lemma_compiled_is_fresh(*d, *rp.node);
        },
        _ => (),
    }
}

/// Children compiled child for child all start fresh.
pub proof fn lemma_compiled_seq_is_fresh<U, W>(
    ds: Seq<BehaviorTreeDef<U, W>>,
    ns: Seq<BehaviorTreeNode<U::Node, W::Node>>,
) where U: UserNodeDefinition, W: UserWrapperDefinition<U>
    requires
        compiled_seq_from(ds, ns),
    ensures
        node_seq_is_fresh(ns),
    decreases def_seq_height(ds),
{
    if ds.len() > 0 {
        lemma_compiled_is_fresh(ds.last(), ns.last());
        lemma_compiled_seq_is_fresh(ds.drop_last(), ns.drop_last());
    }
}

impl<U, W> BehaviorTreeDef<U, W> where U: UserNodeDefinition, W: UserWrapperDefinition<U> {
    /// Compile this definition into a fresh, independent live tree: each
    /// structural variant wraps its recursively compiled children, with
    /// no stored progress anywhere and a unique debug label per
    /// structural node; leaf and wrapper variants delegate to the
    /// caller-supplied factory logic.
    pub fn create_tree(&self) -> (t: BehaviorTreeNode<U::Node, W::Node>)
        ensures
            compiled_from(*self, t),
            node_is_fresh(t),
    {
        let mut next_id: u64 = 0;
        let t = self.build_tree(&mut next_id);
        proof {
            lemma_compiled_is_fresh(*self, t);
        }
        t
    }

    /// Compile one definition node, drawing debug labels from the given
    /// counter.
    #[verifier::loop_isolation(false)]
    fn build_tree(&self, next_id: &mut u64) -> (t: BehaviorTreeNode<U::Node, W::Node>)
        ensures
            compiled_from(*self, t),
        decreases def_height(*self),
    {
        match self {
            BehaviorTreeDef::Sequence(defs) => {
                let mut nodes: Vec<BehaviorTreeNode<U::Node, W::Node>> = Vec::new();
                let mut i: usize = 0;
                while i < defs.len()
                    invariant
                        i <= defs@.len(),
                        nodes@.len() == i,
                        forall|k: int|
                            0 <= k < i ==> compiled_from(defs@[k], #[trigger] nodes@[k]),
                    decreases defs@.len() - i,
                {
                    proof {
                        lemma_def_seq_height_elem(defs@, i as int);
                    }
                    let child = defs[i].build_tree(next_id);
                    nodes.push(child);
                    i = i + 1;
                }
                proof {
                    lemma_compiled_seq_from_indices(defs@, nodes@);
                }
                let mut s = Sequence::new(nodes);
                s.name = get_bt_id(next_id);
                BehaviorTreeNode::Sequence(s)
            },
            BehaviorTreeDef::Selector(defs) => {
                let mut nodes: Vec<BehaviorTreeNode<U::Node, W::Node>> = Vec::new();
                let mut i: usize = 0;
                while i < defs.len()
                    invariant
                        i <= defs@.len(),
                        nodes@.len() == i,
                        forall|k: int|
                            0 <= k < i ==> compiled_from(defs@[k], #[trigger] nodes@[k]),
                    decreases defs@.len() - i,
                {
                    proof {
                        lemma_def_seq_height_elem(defs@, i as int);
                    }
                    let child = defs[i].build_tree(next_id);
                    nodes.push(child);
                    i = i + 1;
                }
                proof {
                    lemma_compiled_seq_from_indices(defs@, nodes@);
                }
                let mut s = Selector::new(nodes);
                s.name = get_bt_id(next_id);
                BehaviorTreeNode::Selector(s)
            },
            BehaviorTreeDef::Repeat(d, n) => {
                let node = d.build_tree(next_id);
                let mut rp = Repeat::new(Box::new(node), *n);
                rp.name = get_bt_id(next_id);
                BehaviorTreeNode::Repeat(rp)
            },
            BehaviorTreeDef::RepeatUntilSuccess(d) => {
                let node = d.build_tree(next_id);
                let mut rp = RepeatUntilSuccess::new(Box::new(node));
                rp.name = get_bt_id(next_id);
                BehaviorTreeNode::RepeatUntilSuccess(rp)
            },
            BehaviorTreeDef::RepeatUntilFail(d) => {
                let node = d.build_tree(next_id);
                let mut rp = RepeatUntilFail::new(Box::new(node));
                rp.name = get_bt_id(next_id);
                BehaviorTreeNode::RepeatUntilFail(rp)
            },
            BehaviorTreeDef::Succeeder(d) => {
                let node = d.build_tree(next_id);
                let mut rp = Succeeder::new(Box::new(node));
                rp.name = get_bt_id(next_id);
                BehaviorTreeNode::Succeeder(rp)
            },
            BehaviorTreeDef::Failer(d) => {
                let node = d.build_tree(next_id);
                let mut rp = Failer::new(Box::new(node));
                rp.name = get_bt_id(next_id);
                BehaviorTreeNode::Failer(rp)
            },
            BehaviorTreeDef::Inverter(d) => {
                let node = d.build_tree(next_id);
                let mut rp = Inverter::new(Box::new(node));
                rp.name = get_bt_id(next_id);
                BehaviorTreeNode::Inverter(rp)
            },
            BehaviorTreeDef::User(u) => BehaviorTreeNode::User(u.create_node()),
            BehaviorTreeDef::Wrapper(w, defs) => {
                let mut nodes: Vec<BehaviorTreeNode<U::Node, W::Node>> = Vec::new();
                let mut i: usize = 0;
                while i < defs.len()
                    invariant
                        i <= defs@.len(),
                        nodes@.len() == i,
                    decreases defs@.len() - i,
                {
                    proof {
                        lemma_def_seq_height_elem(defs@, i as int);
                    }
                    let child = defs[i].build_tree(next_id);
                    nodes.push(child);
                    i = i + 1;
                }
                BehaviorTreeNode::Wrapper(w.create_node_and_wrap(nodes))
            },
        }
    }
}

/// A compiled tree is itself a node, so a whole tree can stand wherever
/// the node contract is expected (as a user leaf of a larger tree, for
/// one).
impl<L, W> BehaviorTree for BehaviorTreeNode<L, W> where
    L: BehaviorTree,
    W: BehaviorTree<Model = L::Model, Controller = L::Controller>,
{
    type Model = L::Model;

    type Controller = L::Controller;

    /// A compiled tree answers for itself with the node relation.
    open spec fn resume_rel(
        pre: BehaviorTreeNode<L, W>,
        pre_gas: Option<i32>,
        post: BehaviorTreeNode<L, W>,
        post_gas: Option<i32>,
        r: BehaviorTreeState,
    ) -> bool {
        node_resume_rel(pre, pre_gas, post, post_gas, r)
    }

    fn get_name(&self) -> &String {
        self.get_name()
    }

    fn resume_with(
        &mut self,
        model: &L::Model,
        controller: &mut L::Controller,
        gas: &mut Option<i32>,
        audit: &mut Option<BehaviorTreeAudit>,
    ) -> (r: BehaviorTreeState)
        ensures
            resume_step_ok(*old(gas), *final(gas), *old(audit), *final(audit), r),
    {
        self.resume_with(model, controller, gas, audit)
    }

    fn reset(&mut self, model: &L::Model) {
        self.reset(model)
    }
}

} // verus!
