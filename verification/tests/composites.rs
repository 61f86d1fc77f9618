use behavior_tree::BehaviorTree;
use behavior_tree::Inverter;
use behavior_tree::BehaviorTreeAudit;
use behavior_tree::BehaviorTreeMarker;
use behavior_tree::BehaviorTreeNode;
use behavior_tree::BehaviorTreeState;
use behavior_tree::ScriptedLeaf;
use behavior_tree::Selector;
use behavior_tree::Sequence;

type Leaf = ScriptedLeaf<(), ()>;
type Node = BehaviorTreeNode<Leaf, Leaf>;

fn leaf(name: &str, outcomes: Vec<BehaviorTreeState>) -> Node {
    BehaviorTreeNode::User(Leaf::new(name.to_string(), outcomes))
}

#[test]
fn sequence_failure_clears_the_index() {
    // Child 0 completes once and would suspend if it were re-entered, so
    // the second call shows whether the sequence restarted at index 0.
    let mut seq = Sequence::new(vec![
        leaf(
            "a",
            vec![BehaviorTreeState::Complete, BehaviorTreeState::Waiting],
        ),
        leaf("b", vec![BehaviorTreeState::Complete]),
        leaf("c", vec![BehaviorTreeState::Failed]),
    ]);
    let mut gas: Option<i32> = None;
    let mut audit: Option<BehaviorTreeAudit> = None;
    let mut ctl = ();

    let r = seq.resume_with(&(), &mut ctl, &mut gas, &mut audit);
    assert_eq!(r, BehaviorTreeState::Failed);

    // The failure cleared the stored index: the next call re-enters
    // child 0, whose script now yields Waiting.
    let r = seq.resume_with(&(), &mut ctl, &mut gas, &mut audit);
    assert_eq!(r, BehaviorTreeState::Waiting);
}

#[test]
fn sequence_resumes_at_the_suspended_child() {
    // Child 0 would fail if it were ever re-entered.
    let mut seq = Sequence::new(vec![
        leaf(
            "a",
            vec![BehaviorTreeState::Complete, BehaviorTreeState::Failed],
        ),
        leaf(
            "b",
            vec![BehaviorTreeState::Waiting, BehaviorTreeState::Complete],
        ),
        leaf("c", vec![BehaviorTreeState::Complete]),
    ]);
    let mut gas: Option<i32> = None;
    let mut audit: Option<BehaviorTreeAudit> = None;
    let mut ctl = ();

    let r = seq.resume_with(&(), &mut ctl, &mut gas, &mut audit);
    assert_eq!(r, BehaviorTreeState::Waiting);

    // The second call re-enters child 1, which now completes, and the
    // call continues into child 2. Child 0 was not re-invoked, or the
    // whole sequence would have failed.
    let r = seq.resume_with(&(), &mut ctl, &mut gas, &mut audit);
    assert_eq!(r, BehaviorTreeState::Complete);
}

#[test]
fn selector_tries_children_in_order_until_one_completes() {
    let mut sel = Selector::new(vec![
        leaf("a", vec![BehaviorTreeState::Failed]),
        leaf("b", vec![BehaviorTreeState::Failed]),
        leaf("c", vec![BehaviorTreeState::Complete]),
    ]);
    let mut gas: Option<i32> = None;
    let mut audit = Some(BehaviorTreeAudit::new());
    let mut ctl = ();

    let r = sel.resume_with(&(), &mut ctl, &mut gas, &mut audit);
    assert_eq!(r, BehaviorTreeState::Complete);

    // Exactly three children were attempted, in declared order.
    let attempted: Vec<String> = audit
        .as_ref()
        .unwrap()
        .events
        .iter()
        .filter_map(|e| match e {
            BehaviorTreeMarker::Enter(n) if n != "Selector" => Some(n.clone()),
            _ => None,
        })
        .collect();
    assert_eq!(attempted, vec!["a".to_string(), "b".to_string(), "c".to_string()]);
}

#[test]
fn selector_exhausting_all_children_fails() {
    let mut sel = Selector::new(vec![
        leaf("a", vec![BehaviorTreeState::Failed]),
        leaf("b", vec![BehaviorTreeState::Failed]),
    ]);
    let mut gas: Option<i32> = None;
    let mut audit: Option<BehaviorTreeAudit> = None;
    let mut ctl = ();
    let r = sel.resume_with(&(), &mut ctl, &mut gas, &mut audit);
    assert_eq!(r, BehaviorTreeState::Failed);
}

#[test]
fn selector_resumes_at_the_suspended_child() {
    let mut sel = Selector::new(vec![
        leaf(
            "a",
            vec![BehaviorTreeState::Failed, BehaviorTreeState::Complete],
        ),
        leaf(
            "b",
            vec![BehaviorTreeState::Waiting, BehaviorTreeState::Failed],
        ),
        leaf("c", vec![BehaviorTreeState::Complete]),
    ]);
    let mut gas: Option<i32> = None;
    let mut audit: Option<BehaviorTreeAudit> = None;
    let mut ctl = ();

    let r = sel.resume_with(&(), &mut ctl, &mut gas, &mut audit);
    assert_eq!(r, BehaviorTreeState::Waiting);

    // The second call re-enters child 1, which fails, and moves on to
    // child 2. Child 0 was not re-invoked, or the selector would have
    // completed at once.
    let r = sel.resume_with(&(), &mut ctl, &mut gas, &mut audit);
    assert_eq!(r, BehaviorTreeState::Complete);
}

#[test]
fn reset_makes_a_suspended_sequence_restart_at_child_zero() {
    // Child 0 fails if re-entered: after a reset the failure shows that
    // execution restarted at child 0 rather than the stored index.
    let mut seq = Sequence::new(vec![
        leaf(
            "a",
            vec![BehaviorTreeState::Complete, BehaviorTreeState::Failed],
        ),
        leaf(
            "b",
            vec![BehaviorTreeState::Waiting, BehaviorTreeState::Complete],
        ),
    ]);
    let mut gas: Option<i32> = None;
    let mut audit: Option<BehaviorTreeAudit> = None;
    let mut ctl = ();

    let r = seq.resume_with(&(), &mut ctl, &mut gas, &mut audit);
    assert_eq!(r, BehaviorTreeState::Waiting);

    seq.reset(&());

    let r = seq.resume_with(&(), &mut ctl, &mut gas, &mut audit);
    assert_eq!(r, BehaviorTreeState::Failed);
}

#[test]
fn empty_sequence_completes_and_empty_selector_fails() {
    let mut seq: Sequence<Leaf, Leaf> = Sequence::new(vec![]);
    let mut sel: Selector<Leaf, Leaf> = Selector::new(vec![]);
    let mut gas: Option<i32> = None;
    let mut audit: Option<BehaviorTreeAudit> = None;
    let mut ctl = ();
    assert_eq!(
        seq.resume_with(&(), &mut ctl, &mut gas, &mut audit),
        BehaviorTreeState::Complete
    );
    assert_eq!(
        sel.resume_with(&(), &mut ctl, &mut gas, &mut audit),
        BehaviorTreeState::Failed
    );
}

#[test]
fn sequence_with_an_index_past_the_end_completes_without_running_children() {
    let mut seq = Sequence::new(vec![leaf("a", vec![BehaviorTreeState::Waiting])]);
    seq.index = Some(10);
    let mut gas: Option<i32> = None;
    let mut audit: Option<BehaviorTreeAudit> = None;
    let mut ctl = ();

    // The stored index lies past the children, so the traversal ends at
    // once and the index is cleared.
    let r = seq.resume_with(&(), &mut ctl, &mut gas, &mut audit);
    assert_eq!(r, BehaviorTreeState::Complete);

    // The child was not invoked above; this call enters it at script
    // position zero.
    let r = seq.resume_with(&(), &mut ctl, &mut gas, &mut audit);
    assert_eq!(r, BehaviorTreeState::Waiting);
}

#[test]
fn composites_nest_and_fold_outcomes_through_decorators() {
    // A selector whose first branch is an inverted successful sequence
    // (hence a failure) and whose second branch succeeds.
    let inner = Sequence::new(vec![
        leaf("a", vec![BehaviorTreeState::Complete]),
        leaf("b", vec![BehaviorTreeState::Complete]),
    ]);
    let mut sel = Selector::new(vec![
        BehaviorTreeNode::Inverter(Inverter::new(Box::new(BehaviorTreeNode::Sequence(inner)))),
        leaf("c", vec![BehaviorTreeState::Complete]),
    ]);
    let mut gas: Option<i32> = None;
    let mut audit: Option<BehaviorTreeAudit> = None;
    let mut ctl = ();
    let r = sel.resume_with(&(), &mut ctl, &mut gas, &mut audit);
    assert_eq!(r, BehaviorTreeState::Complete);
}
