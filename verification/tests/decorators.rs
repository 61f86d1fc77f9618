use behavior_tree::BehaviorTree;
use behavior_tree::BehaviorTreeAudit;
use behavior_tree::BehaviorTreeMarker;
use behavior_tree::BehaviorTreeNode;
use behavior_tree::BehaviorTreeState;
use behavior_tree::Failer;
use behavior_tree::Inverter;
use behavior_tree::Repeat;
use behavior_tree::RepeatUntilFail;
use behavior_tree::RepeatUntilSuccess;
use behavior_tree::ScriptedLeaf;
use behavior_tree::Succeeder;

type Leaf = ScriptedLeaf<(), ()>;
type Node = BehaviorTreeNode<Leaf, Leaf>;

fn leaf(name: &str, outcomes: Vec<BehaviorTreeState>) -> Box<Node> {
    Box::new(BehaviorTreeNode::User(Leaf::new(name.to_string(), outcomes)))
}

/// Runs one decorator call against a child scripted with a single outcome.
/// The gas budget is bounded so a scripted `WaitingForGas` stays what it is.
fn one_call<F>(build: F, child_yields: BehaviorTreeState) -> BehaviorTreeState
where
    F: FnOnce(Box<Node>) -> Node,
{
    let mut node = build(leaf("child", vec![child_yields]));
    let mut gas: Option<i32> = Some(0);
    let mut audit: Option<BehaviorTreeAudit> = None;
    let mut ctl = ();
    node.resume_with(&(), &mut ctl, &mut gas, &mut audit)
}

#[test]
fn inverter_remaps_all_four_outcomes() {
    let build = |c| BehaviorTreeNode::Inverter(Inverter::new(c));
    assert_eq!(one_call(build, BehaviorTreeState::Complete), BehaviorTreeState::Failed);
    assert_eq!(one_call(build, BehaviorTreeState::Failed), BehaviorTreeState::Complete);
    assert_eq!(one_call(build, BehaviorTreeState::Waiting), BehaviorTreeState::Waiting);
    assert_eq!(
        one_call(build, BehaviorTreeState::WaitingForGas),
        BehaviorTreeState::WaitingForGas
    );
}

#[test]
fn succeeder_remaps_all_four_outcomes() {
    let build = |c| BehaviorTreeNode::Succeeder(Succeeder::new(c));
    assert_eq!(one_call(build, BehaviorTreeState::Complete), BehaviorTreeState::Complete);
    assert_eq!(one_call(build, BehaviorTreeState::Failed), BehaviorTreeState::Complete);
    assert_eq!(one_call(build, BehaviorTreeState::Waiting), BehaviorTreeState::Waiting);
    assert_eq!(
        one_call(build, BehaviorTreeState::WaitingForGas),
        BehaviorTreeState::WaitingForGas
    );
}

#[test]
fn failer_remaps_all_four_outcomes() {
    let build = |c| BehaviorTreeNode::Failer(Failer::new(c));
    assert_eq!(one_call(build, BehaviorTreeState::Complete), BehaviorTreeState::Failed);
    assert_eq!(one_call(build, BehaviorTreeState::Failed), BehaviorTreeState::Failed);
    assert_eq!(one_call(build, BehaviorTreeState::Waiting), BehaviorTreeState::Waiting);
    assert_eq!(
        one_call(build, BehaviorTreeState::WaitingForGas),
        BehaviorTreeState::WaitingForGas
    );
}

#[test]
fn repeat_runs_child_three_times_and_restores_counter() {
    // Six completions scripted: enough for two full calls of Repeat(3).
    let child = leaf(
        "child",
        vec![
            BehaviorTreeState::Complete,
            BehaviorTreeState::Complete,
            BehaviorTreeState::Complete,
            BehaviorTreeState::Complete,
            BehaviorTreeState::Complete,
            BehaviorTreeState::Complete,
        ],
    );
    let mut node = Repeat::new(child, 3);
    let mut gas: Option<i32> = None;
    let mut ctl = ();

    let mut audit = Some(BehaviorTreeAudit::new());
    let r = node.resume_with(&(), &mut ctl, &mut gas, &mut audit);
    assert_eq!(r, BehaviorTreeState::Complete);
    let enters = audit
        .as_ref()
        .unwrap()
        .events
        .iter()
        .filter(|e| matches!(e, BehaviorTreeMarker::Enter(n) if n == "child"))
        .count();
    assert_eq!(enters, 3);

    // The counter was restored, so a second call again makes three runs.
    let mut audit = Some(BehaviorTreeAudit::new());
    let r = node.resume_with(&(), &mut ctl, &mut gas, &mut audit);
    assert_eq!(r, BehaviorTreeState::Complete);
    let enters = audit
        .as_ref()
        .unwrap()
        .events
        .iter()
        .filter(|e| matches!(e, BehaviorTreeMarker::Enter(n) if n == "child"))
        .count();
    assert_eq!(enters, 3);
}

#[test]
fn repeat_failure_gives_no_partial_credit() {
    let child = leaf(
        "child",
        vec![
            BehaviorTreeState::Complete,
            BehaviorTreeState::Failed,
            BehaviorTreeState::Complete,
            BehaviorTreeState::Complete,
            BehaviorTreeState::Complete,
        ],
    );
    let mut node = Repeat::new(child, 3);
    let mut gas: Option<i32> = None;
    let mut audit: Option<BehaviorTreeAudit> = None;
    let mut ctl = ();

    // One completion, then a failure: the whole repeat fails at once.
    let r = node.resume_with(&(), &mut ctl, &mut gas, &mut audit);
    assert_eq!(r, BehaviorTreeState::Failed);

    // The counter was restored to 3, so the three remaining scripted
    // completions are exactly enough for one full run.
    let r = node.resume_with(&(), &mut ctl, &mut gas, &mut audit);
    assert_eq!(r, BehaviorTreeState::Complete);
}

#[test]
fn repeat_counts_completions_across_a_suspension() {
    let child = leaf(
        "child",
        vec![
            BehaviorTreeState::Complete,
            BehaviorTreeState::Waiting,
            BehaviorTreeState::Complete,
            BehaviorTreeState::Complete,
        ],
    );
    let mut node = Repeat::new(child, 3);
    let mut gas: Option<i32> = None;
    let mut audit: Option<BehaviorTreeAudit> = None;
    let mut ctl = ();

    let r = node.resume_with(&(), &mut ctl, &mut gas, &mut audit);
    assert_eq!(r, BehaviorTreeState::Waiting);

    // The completion earned before the suspension still counts: two more
    // are enough.
    let r = node.resume_with(&(), &mut ctl, &mut gas, &mut audit);
    assert_eq!(r, BehaviorTreeState::Complete);
}

#[test]
fn repeat_until_fail_loops_within_one_call() {
    let child = leaf(
        "child",
        vec![
            BehaviorTreeState::Complete,
            BehaviorTreeState::Complete,
            BehaviorTreeState::Failed,
        ],
    );
    let mut node = RepeatUntilFail::new(child);
    let mut gas: Option<i32> = None;
    let mut ctl = ();

    let mut audit = Some(BehaviorTreeAudit::new());
    let r = node.resume_with(&(), &mut ctl, &mut gas, &mut audit);
    assert_eq!(r, BehaviorTreeState::Complete);

    // All three child invocations happened inside the one call.
    let enters = audit
        .as_ref()
        .unwrap()
        .events
        .iter()
        .filter(|e| matches!(e, BehaviorTreeMarker::Enter(n) if n == "child"))
        .count();
    assert_eq!(enters, 3);
}

#[test]
fn repeat_until_fail_relays_a_suspension() {
    let child = leaf(
        "child",
        vec![BehaviorTreeState::Complete, BehaviorTreeState::Waiting],
    );
    let mut node = RepeatUntilFail::new(child);
    let mut gas: Option<i32> = None;
    let mut audit: Option<BehaviorTreeAudit> = None;
    let mut ctl = ();
    let r = node.resume_with(&(), &mut ctl, &mut gas, &mut audit);
    assert_eq!(r, BehaviorTreeState::Waiting);
}

#[test]
fn repeat_until_success_loops_past_failures() {
    let child = leaf(
        "child",
        vec![
            BehaviorTreeState::Failed,
            BehaviorTreeState::Failed,
            BehaviorTreeState::Complete,
        ],
    );
    let mut node = RepeatUntilSuccess::new(child);
    let mut gas: Option<i32> = None;
    let mut ctl = ();

    let mut audit = Some(BehaviorTreeAudit::new());
    let r = node.resume_with(&(), &mut ctl, &mut gas, &mut audit);
    assert_eq!(r, BehaviorTreeState::Complete);
    let enters = audit
        .as_ref()
        .unwrap()
        .events
        .iter()
        .filter(|e| matches!(e, BehaviorTreeMarker::Enter(n) if n == "child"))
        .count();
    assert_eq!(enters, 3);
}

#[test]
fn repeat_until_success_relays_a_suspension() {
    let child = leaf(
        "child",
        vec![BehaviorTreeState::Failed, BehaviorTreeState::WaitingForGas],
    );
    let mut node = RepeatUntilSuccess::new(child);
    let mut gas: Option<i32> = Some(0);
    let mut audit: Option<BehaviorTreeAudit> = None;
    let mut ctl = ();
    let r = node.resume_with(&(), &mut ctl, &mut gas, &mut audit);
    assert_eq!(r, BehaviorTreeState::WaitingForGas);
}
