use vstd::prelude::*;

use crate::audit::audit_bracketed;
use crate::audit::audit_enter;
use crate::audit::lemma_audit_bracket_exit;
use crate::audit::lemma_audit_bracket_yield;
use crate::audit::audit_exit;
use crate::audit::lemma_audit_open_after_enter;
use crate::audit::lemma_audit_open_exit;
use crate::audit::lemma_audit_open_yield;
use crate::audit::BehaviorTreeAudit;
use crate::nodes::resume_step_ok;
use crate::nodes::BehaviorTree;
use crate::state::BehaviorTreeState;

verus! {

/// A leaf that yields a fixed script of outcomes, one per call, and
/// `Failed` once the script is exhausted. It consumes no gas; a scripted
/// `WaitingForGas` is reported as plain `Waiting` under an unlimited
/// budget, where blaming the budget would be wrong.
pub struct ScriptedLeaf<M, C> {
    /// Identifier for audit correlation.
    pub name: String,
    /// The outcomes to yield, in order.
    pub outcomes: Vec<BehaviorTreeState>,
    /// How many calls have been taken from the script.
    pub pos: usize,
    /// The model and controller types this leaf works against.
    pub phantom: core::marker::PhantomData<(M, C)>,
}

/// The outcome the script yields at the given position under the given
/// budget.
pub open spec fn scripted_outcome<M, C>(
    pre: ScriptedLeaf<M, C>,
    gas: Option<i32>,
) -> BehaviorTreeState {
    let raw = if pre.pos < pre.outcomes@.len() {
        pre.outcomes@[pre.pos as int]
    } else {
        BehaviorTreeState::Failed
    };
    if raw is WaitingForGas && gas is None {
        BehaviorTreeState::Waiting
    } else {
        raw
    }
}

impl<M, C> ScriptedLeaf<M, C> {
    /// A fresh scripted leaf at the start of its script.
    pub fn new(name: String, outcomes: Vec<BehaviorTreeState>) -> (s: ScriptedLeaf<M, C>)
        ensures
            s.name == name,
            s.outcomes == outcomes,
            s.pos == 0,
    {
        ScriptedLeaf { name, outcomes, pos: 0, phantom: core::marker::PhantomData }
    }
}

impl<M, C> Clone for ScriptedLeaf<M, C> {
    /// An independent copy: same name, same script, same position.
    fn clone(&self) -> (r: Self)
        ensures
            r.name == self.name,
            r.outcomes@ == self.outcomes@,
            r.pos == self.pos,
    {
        let mut outcomes: Vec<BehaviorTreeState> = Vec::new();
        let mut i: usize = 0;
        while i < self.outcomes.len()
            invariant
                i <= self.outcomes@.len(),
                outcomes@.len() == i,
                forall|k: int| 0 <= k < i ==> #[trigger] outcomes@[k] == self.outcomes@[k],
            decreases self.outcomes@.len() - i,
        {
            outcomes.push(self.outcomes[i]);
            i = i + 1;
        }
        proof {
            assert(outcomes@ =~= self.outcomes@);
        }
        ScriptedLeaf {
            name: self.name.clone(),
            outcomes,
            pos: self.pos,
            phantom: core::marker::PhantomData,
        }
    }
}

impl<M, C> BehaviorTree for ScriptedLeaf<M, C> {
    type Model = M;

    type Controller = C;

    /// The outcome is the script's, the script itself survives, and the
    /// position advances while any of the script is left.
    open spec fn resume_rel(
        pre: ScriptedLeaf<M, C>,
        pre_gas: Option<i32>,
        post: ScriptedLeaf<M, C>,
        post_gas: Option<i32>,
        r: BehaviorTreeState,
    ) -> bool {
        post_gas == pre_gas && r == scripted_outcome(pre, pre_gas) && post.name == pre.name
            && post.outcomes
            == pre.outcomes && post.pos == (if pre.pos < pre.outcomes@.len() {
            pre.pos + 1
        } else {
            pre.pos as int
        })
    }

    fn get_name(&self) -> (r: &String)
        ensures
            *r == self.name,
    {
        &self.name
    }

    /// Yield the next scripted outcome and advance the script position.
    fn resume_with(
        &mut self,
        model: &M,
        controller: &mut C,
        gas: &mut Option<i32>,
        audit: &mut Option<BehaviorTreeAudit>,
    ) -> (r: BehaviorTreeState)
        ensures
            resume_step_ok(*old(gas), *final(gas), *old(audit), *final(audit), r),
            audit_bracketed(*old(audit), *final(audit), old(self).name, r),
            *final(gas) == *old(gas),
            r == scripted_outcome(*old(self), *old(gas)),
            final(self).name == old(self).name,
            final(self).outcomes == old(self).outcomes,
            final(self).pos == (if old(self).pos < old(self).outcomes@.len() {
                old(self).pos + 1
            } else {
                old(self).pos as int
            }),
    {
        let _ = model;
        let _ = controller;
        let ghost a0 = *audit;
        audit_enter(audit, &self.name);
        proof {
            lemma_audit_open_after_enter(a0, *audit, self.name);
        }
        let raw = if self.pos < self.outcomes.len() {
            let r = self.outcomes[self.pos];
            self.pos = self.pos + 1;
            r
        } else {
            BehaviorTreeState::Failed
        };
        let r = match raw {
            BehaviorTreeState::WaitingForGas => {
                if gas.is_none() {
                    BehaviorTreeState::Waiting
                } else {
                    BehaviorTreeState::WaitingForGas
                }
            },
            _ => raw,
        };
        match r {
            BehaviorTreeState::Failed | BehaviorTreeState::Complete => {
                let ghost a1 = *audit;
                audit_exit(audit, &self.name, r);
                proof {
                    lemma_audit_open_exit(a0, a1, *audit, self.name, r);
                    lemma_audit_bracket_exit(a0, a1, *audit, self.name, r);
                }
            },
            _ => {
                proof {
                    lemma_audit_open_yield(a0, *audit, self.name, r);
                    lemma_audit_bracket_yield(a0, *audit, self.name, r);
                }
            },
        }
        r
    }

    /// Rewind the script to its start.
    fn reset(&mut self, model: &M)
        ensures
            final(self).name == old(self).name,
            final(self).outcomes == old(self).outcomes,
            final(self).pos == 0,
    {
        let _ = model;
        self.pos = 0;
    }
}

/// A leaf that performs one unit of metered work per call: under a bounded
/// budget it consumes one unit and completes, or reports `WaitingForGas`
/// once the budget is exhausted; under an unlimited budget it simply
/// completes.
pub struct MeteredLeaf<M, C> {
    /// Identifier for audit correlation.
    pub name: String,
    /// The model and controller types this leaf works against.
    pub phantom: core::marker::PhantomData<(M, C)>,
}

impl<M, C> MeteredLeaf<M, C> {
    /// A fresh metered leaf.
    pub fn new(name: String) -> (s: MeteredLeaf<M, C>)
        ensures
            s.name == name,
    {
        MeteredLeaf { name, phantom: core::marker::PhantomData }
    }
}

impl<M, C> Clone for MeteredLeaf<M, C> {
    /// An independent copy under the same name.
    fn clone(&self) -> (r: Self)
        ensures
            r.name == self.name,
    {
        MeteredLeaf { name: self.name.clone(), phantom: core::marker::PhantomData }
    }
}

impl<M, C> BehaviorTree for MeteredLeaf<M, C> {
    type Model = M;

    type Controller = C;

    /// The outcome depends on the budget alone: work proceeds while any
    /// gas is left (or none is metered), and the leaf itself never
    /// changes.
    open spec fn resume_rel(
        pre: MeteredLeaf<M, C>,
        pre_gas: Option<i32>,
        post: MeteredLeaf<M, C>,
        post_gas: Option<i32>,
        r: BehaviorTreeState,
    ) -> bool {
        post == pre && (match pre_gas {
            Option::None => r is Complete && post_gas is None,
            Option::Some(g) => if g > 0 {
                r is Complete && post_gas == Option::Some((g - 1) as i32)
            } else {
                r is WaitingForGas && post_gas == pre_gas
            },
        })
    }

    fn get_name(&self) -> (r: &String)
        ensures
            *r == self.name,
    {
        &self.name
    }

    /// Consume one unit of gas and complete, or blame the exhausted
    /// budget.
    fn resume_with(
        &mut self,
        model: &M,
        controller: &mut C,
        gas: &mut Option<i32>,
        audit: &mut Option<BehaviorTreeAudit>,
    ) -> (r: BehaviorTreeState)
        ensures
            resume_step_ok(*old(gas), *final(gas), *old(audit), *final(audit), r),
            audit_bracketed(*old(audit), *final(audit), old(self).name, r),
            *final(self) == *old(self),
            (*old(gas)) is None ==> r is Complete && (*final(gas)) is None,
            (*old(gas)) matches Option::Some(g) ==> (if g > 0 {
                r is Complete && *final(gas) == Option::Some((g - 1) as i32)
            } else {
                r is WaitingForGas && *final(gas) == *old(gas)
            }),
    {
        let _ = model;
        let _ = controller;
        let ghost a0 = *audit;
        audit_enter(audit, &self.name);
        proof {
            lemma_audit_open_after_enter(a0, *audit, self.name);
        }
        let r = match gas {
            Option::None => BehaviorTreeState::Complete,
            Option::Some(g) => {
                if *g > 0 {
                    *g = *g - 1;
                    BehaviorTreeState::Complete
                } else {
                    BehaviorTreeState::WaitingForGas
                }
            },
        };
        match r {
            BehaviorTreeState::Failed | BehaviorTreeState::Complete => {
                let ghost a1 = *audit;
                audit_exit(audit, &self.name, r);
                proof {
                    lemma_audit_open_exit(a0, a1, *audit, self.name, r);
                    lemma_audit_bracket_exit(a0, a1, *audit, self.name, r);
                }
            },
            _ => {
                proof {
                    lemma_audit_open_yield(a0, *audit, self.name, r);
                    lemma_audit_bracket_yield(a0, *audit, self.name, r);
                }
            },
        }
        r
    }

    /// Nothing to clear: this leaf stores no progress.
    fn reset(&mut self, model: &M)
        ensures
            *final(self) == *old(self),
    {
        let _ = model;
    }
}

} // verus!
