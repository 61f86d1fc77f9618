use behavior_tree::BehaviorTree;
use behavior_tree::BehaviorTreeAudit;
use behavior_tree::BehaviorTreeAuditTrait;
use behavior_tree::BehaviorTreeMarker;
use behavior_tree::BehaviorTreeNode;
use behavior_tree::BehaviorTreeState;
use behavior_tree::ScriptedLeaf;
use behavior_tree::Sequence;
use behavior_tree::Succeeder;

type Leaf = ScriptedLeaf<(), ()>;
type Node = BehaviorTreeNode<Leaf, Leaf>;

fn leaf(name: &str, outcomes: Vec<BehaviorTreeState>) -> Node {
    BehaviorTreeNode::User(Leaf::new(name.to_string(), outcomes))
}

#[test]
fn trace_nests_exits_inner_to_outer() {
    let mut seq = Sequence::new(vec![BehaviorTreeNode::Succeeder(Succeeder::new(
        Box::new(leaf("leafA", vec![BehaviorTreeState::Complete])),
    ))]);
    let mut gas: Option<i32> = None;
    let mut audit = Some(BehaviorTreeAudit::new());
    let mut ctl = ();

    let r = seq.resume_with(&(), &mut ctl, &mut gas, &mut audit);
    assert_eq!(r, BehaviorTreeState::Complete);

    let expected = vec![
        BehaviorTreeMarker::Enter("Sequence".to_string()),
        BehaviorTreeMarker::Enter("Succeeder".to_string()),
        BehaviorTreeMarker::Enter("leafA".to_string()),
        BehaviorTreeMarker::Exit("leafA".to_string(), BehaviorTreeState::Complete),
        BehaviorTreeMarker::Exit("Succeeder".to_string(), BehaviorTreeState::Complete),
        BehaviorTreeMarker::Exit("Sequence".to_string(), BehaviorTreeState::Complete),
    ];
    let audit = audit.unwrap();
    assert_eq!(audit.events, expected);

    // Every entry was matched by an exit: no frame is left open.
    assert!(audit.place.is_empty());
}

#[test]
fn a_suspension_leaves_the_entries_unmatched() {
    let mut seq = Sequence::new(vec![
        leaf("a", vec![BehaviorTreeState::Complete]),
        leaf("b", vec![BehaviorTreeState::Waiting]),
    ]);
    let mut gas: Option<i32> = None;
    let mut audit = Some(BehaviorTreeAudit::new());
    let mut ctl = ();

    let r = seq.resume_with(&(), &mut ctl, &mut gas, &mut audit);
    assert_eq!(r, BehaviorTreeState::Waiting);

    let expected = vec![
        BehaviorTreeMarker::Enter("Sequence".to_string()),
        BehaviorTreeMarker::Enter("a".to_string()),
        BehaviorTreeMarker::Exit("a".to_string(), BehaviorTreeState::Complete),
        BehaviorTreeMarker::Enter("b".to_string()),
    ];
    let audit = audit.unwrap();
    assert_eq!(audit.events, expected);

    // The suspended path is exactly the stack of still-open frames.
    assert_eq!(audit.place, vec!["Sequence".to_string(), "b".to_string()]);
}

#[test]
fn running_without_an_audit_sink_changes_nothing_observable() {
    let mut seq = Sequence::new(vec![
        leaf("a", vec![BehaviorTreeState::Complete]),
        leaf("b", vec![BehaviorTreeState::Complete]),
    ]);
    let mut gas: Option<i32> = None;
    let mut audit: Option<BehaviorTreeAudit> = None;
    let mut ctl = ();
    let r = seq.resume_with(&(), &mut ctl, &mut gas, &mut audit);
    assert_eq!(r, BehaviorTreeState::Complete);
    assert!(audit.is_none());
}

#[test]
fn exit_pops_the_stack_only_on_a_matching_name() {
    let mut audit = BehaviorTreeAudit::new();
    audit.enter(&"outer".to_string());
    audit.enter(&"inner".to_string());

    // An exit whose name is not the top frame leaves the stack alone.
    audit.exit(&"outer".to_string(), BehaviorTreeState::Complete);
    assert_eq!(audit.place, vec!["outer".to_string(), "inner".to_string()]);

    // A matching exit pops exactly the top frame.
    audit.exit(&"inner".to_string(), BehaviorTreeState::Failed);
    assert_eq!(audit.place, vec!["outer".to_string()]);

    // The event log kept everything, in order.
    assert_eq!(
        audit.events,
        vec![
            BehaviorTreeMarker::Enter("outer".to_string()),
            BehaviorTreeMarker::Enter("inner".to_string()),
            BehaviorTreeMarker::Exit("outer".to_string(), BehaviorTreeState::Complete),
            BehaviorTreeMarker::Exit("inner".to_string(), BehaviorTreeState::Failed),
        ]
    );
}

#[test]
fn mark_appends_without_touching_the_stack() {
    let mut audit = BehaviorTreeAudit::new();
    audit.enter(&"node".to_string());
    audit.mark(&"node".to_string());
    assert_eq!(
        audit.events,
        vec![
            BehaviorTreeMarker::Enter("node".to_string()),
            BehaviorTreeMarker::Marker("node".to_string()),
        ]
    );
    assert_eq!(audit.place, vec!["node".to_string()]);
}
