use behavior_tree::BehaviorTree;
use behavior_tree::BehaviorTreeAudit;
use behavior_tree::BehaviorTreeNode;
use behavior_tree::BehaviorTreeState;
use behavior_tree::MeteredLeaf;
use behavior_tree::Sequence;

type Leaf = MeteredLeaf<(), ()>;
type Node = BehaviorTreeNode<Leaf, Leaf>;

fn metered(name: &str) -> Node {
    BehaviorTreeNode::User(Leaf::new(name.to_string()))
}

#[test]
fn exhaustion_deep_in_the_tree_suspends_the_whole_call() {
    let mut seq = Sequence::new(vec![metered("a"), metered("b"), metered("c")]);
    let mut gas: Option<i32> = Some(2);
    let mut audit: Option<BehaviorTreeAudit> = None;
    let mut ctl = ();

    // Two units feed two children; the third finds the budget exhausted,
    // and every ancestor relays its suspension.
    let r = seq.resume_with(&(), &mut ctl, &mut gas, &mut audit);
    assert_eq!(r, BehaviorTreeState::WaitingForGas);
    assert_eq!(gas, Some(0));

    // The driver refills the budget; the call resumes exactly at the
    // starved child and finishes the remaining work.
    gas = Some(5);
    let r = seq.resume_with(&(), &mut ctl, &mut gas, &mut audit);
    assert_eq!(r, BehaviorTreeState::Complete);
    assert_eq!(gas, Some(4));
}

#[test]
fn an_unlimited_budget_stays_unlimited() {
    let mut seq = Sequence::new(vec![metered("a"), metered("b"), metered("c")]);
    let mut gas: Option<i32> = None;
    let mut audit: Option<BehaviorTreeAudit> = None;
    let mut ctl = ();
    let r = seq.resume_with(&(), &mut ctl, &mut gas, &mut audit);
    assert_eq!(r, BehaviorTreeState::Complete);
    assert_eq!(gas, None);
}

#[test]
fn a_leaf_consumes_exactly_what_it_reports() {
    let mut leaf = Leaf::new("work".to_string());
    let mut gas: Option<i32> = Some(1);
    let mut audit: Option<BehaviorTreeAudit> = None;
    let mut ctl = ();

    assert_eq!(
        leaf.resume_with(&(), &mut ctl, &mut gas, &mut audit),
        BehaviorTreeState::Complete
    );
    assert_eq!(gas, Some(0));

    assert_eq!(
        leaf.resume_with(&(), &mut ctl, &mut gas, &mut audit),
        BehaviorTreeState::WaitingForGas
    );
    assert_eq!(gas, Some(0));
}
