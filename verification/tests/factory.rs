use behavior_tree::get_bt_id;
use behavior_tree::BehaviorTree;
use behavior_tree::BehaviorTreeAudit;
use behavior_tree::BehaviorTreeDef;
use behavior_tree::BehaviorTreeMarker;
use behavior_tree::BehaviorTreeNode;
use behavior_tree::BehaviorTreeState;
use behavior_tree::ScriptedLeaf;
use behavior_tree::UserWrapperDefinition;

type Leaf = ScriptedLeaf<(), ()>;

/// A wrapper definition whose live node runs its first child and relays
/// the outcome.
#[derive(Clone)]
struct FirstChildWrapperDef;

/// The live node the wrapper definition builds.
struct FirstChildWrapper {
    name: String,
    children: Vec<BehaviorTreeNode<Leaf, FirstChildWrapper>>,
}

impl BehaviorTree for FirstChildWrapper {
    type Model = ();
    type Controller = ();

    fn get_name(&self) -> &String {
        &self.name
    }

    fn resume_with(
        &mut self,
        model: &(),
        controller: &mut (),
        gas: &mut Option<i32>,
        audit: &mut Option<BehaviorTreeAudit>,
    ) -> BehaviorTreeState {
        match self.children.first_mut() {
            Some(child) => child.resume_with(model, controller, gas, audit),
            None => BehaviorTreeState::Failed,
        }
    }

    fn reset(&mut self, model: &()) {
        for child in self.children.iter_mut() {
            child.reset(model);
        }
    }
}

impl UserWrapperDefinition<Leaf> for FirstChildWrapperDef {
    type Node = FirstChildWrapper;

    fn create_node_and_wrap(
        &self,
        nodes: Vec<BehaviorTreeNode<Leaf, FirstChildWrapper>>,
    ) -> FirstChildWrapper {
        FirstChildWrapper { name: "FirstChild".to_string(), children: nodes }
    }
}

type Def = BehaviorTreeDef<Leaf, FirstChildWrapperDef>;

fn leaf_def(name: &str, outcomes: Vec<BehaviorTreeState>) -> Def {
    BehaviorTreeDef::User(Leaf::new(name.to_string(), outcomes))
}

#[test]
fn two_compilations_share_no_progress() {
    let def: Def = BehaviorTreeDef::Sequence(vec![leaf_def(
        "a",
        vec![BehaviorTreeState::Complete, BehaviorTreeState::Waiting],
    )]);

    let mut first = def.create_tree();
    let mut second = def.create_tree();
    let mut gas: Option<i32> = None;
    let mut audit: Option<BehaviorTreeAudit> = None;
    let mut ctl = ();

    // Each copy starts its leaf's script from the beginning and keeps
    // its own position: neither run observes the other's progress.
    assert_eq!(
        first.resume_with(&(), &mut ctl, &mut gas, &mut audit),
        BehaviorTreeState::Complete
    );
    assert_eq!(
        second.resume_with(&(), &mut ctl, &mut gas, &mut audit),
        BehaviorTreeState::Complete
    );
    assert_eq!(
        first.resume_with(&(), &mut ctl, &mut gas, &mut audit),
        BehaviorTreeState::Waiting
    );
    assert_eq!(
        second.resume_with(&(), &mut ctl, &mut gas, &mut audit),
        BehaviorTreeState::Waiting
    );
}

#[test]
fn a_compiled_tree_runs_as_its_definition_describes() {
    let def: Def = BehaviorTreeDef::Selector(vec![
        BehaviorTreeDef::Inverter(Box::new(leaf_def("a", vec![BehaviorTreeState::Complete]))),
        BehaviorTreeDef::Repeat(
            Box::new(leaf_def(
                "b",
                vec![BehaviorTreeState::Complete, BehaviorTreeState::Complete],
            )),
            2,
        ),
    ]);

    let mut tree = def.create_tree();
    let mut gas: Option<i32> = None;
    let mut audit: Option<BehaviorTreeAudit> = None;
    let mut ctl = ();

    // The inverter turns its child's completion into a failure, so the
    // selector moves on to the repeat node, which completes twice.
    let r = tree.resume_with(&(), &mut ctl, &mut gas, &mut audit);
    assert_eq!(r, BehaviorTreeState::Complete);
}

#[test]
fn a_wrapper_definition_builds_the_caller_made_node() {
    let def: Def = BehaviorTreeDef::Wrapper(
        FirstChildWrapperDef,
        vec![
            leaf_def("a", vec![BehaviorTreeState::Complete]),
            leaf_def("b", vec![BehaviorTreeState::Failed]),
        ],
    );
    let mut tree = def.create_tree();
    let mut gas: Option<i32> = None;
    let mut audit: Option<BehaviorTreeAudit> = None;
    let mut ctl = ();

    // The wrapper node runs its first child only.
    let r = tree.resume_with(&(), &mut ctl, &mut gas, &mut audit);
    assert_eq!(r, BehaviorTreeState::Complete);
}

#[test]
fn structural_nodes_get_unique_debug_labels() {
    let def: Def = BehaviorTreeDef::Sequence(vec![
        BehaviorTreeDef::Succeeder(Box::new(leaf_def("a", vec![BehaviorTreeState::Complete]))),
    ]);
    let mut tree = def.create_tree();
    let mut gas: Option<i32> = None;
    let mut audit = Some(BehaviorTreeAudit::new());
    let mut ctl = ();

    let r = tree.resume_with(&(), &mut ctl, &mut gas, &mut audit);
    assert_eq!(r, BehaviorTreeState::Complete);

    // The succeeder was compiled before its parent sequence, so it drew
    // the first label from the construction-scoped counter.
    let expected = vec![
        BehaviorTreeMarker::Enter("<node 1>".to_string()),
        BehaviorTreeMarker::Enter("<node 0>".to_string()),
        BehaviorTreeMarker::Enter("a".to_string()),
        BehaviorTreeMarker::Exit("a".to_string(), BehaviorTreeState::Complete),
        BehaviorTreeMarker::Exit("<node 0>".to_string(), BehaviorTreeState::Complete),
        BehaviorTreeMarker::Exit("<node 1>".to_string(), BehaviorTreeState::Complete),
    ];
    assert_eq!(audit.unwrap().events, expected);
}

#[test]
fn bt_ids_render_the_counter_in_decimal() {
    let mut counter: u64 = 0;
    assert_eq!(get_bt_id(&mut counter), "<node 0>");
    assert_eq!(get_bt_id(&mut counter), "<node 1>");
    assert_eq!(counter, 2);

    let mut counter: u64 = 12345;
    assert_eq!(get_bt_id(&mut counter), "<node 12345>");
    assert_eq!(counter, 12346);
}

#[test]
fn a_duplicated_definition_compiles_like_the_original() {
    let def: Def = BehaviorTreeDef::RepeatUntilFail(Box::new(leaf_def(
        "a",
        vec![
            BehaviorTreeState::Complete,
            BehaviorTreeState::Complete,
            BehaviorTreeState::Failed,
        ],
    )));
    let copy = def.clone();

    let mut tree = copy.create_tree();
    let mut gas: Option<i32> = None;
    let mut audit: Option<BehaviorTreeAudit> = None;
    let mut ctl = ();
    let r = tree.resume_with(&(), &mut ctl, &mut gas, &mut audit);
    assert_eq!(r, BehaviorTreeState::Complete);
}
