use vstd::prelude::*;

use crate::state::BehaviorTreeState;

verus! {

/// One event of the step-scoped audit trail.
#[derive(Debug, Clone)]
pub enum BehaviorTreeMarker {
    /// A node began (or resumed) its work for this call.
    Enter(String),
    /// A free-form marker a node may drop while it runs.
    Marker(String),
    /// A node finished its work for this call with the given outcome.
    Exit(String, BehaviorTreeState),
}

impl PartialEq for BehaviorTreeMarker {
    fn eq(&self, other: &BehaviorTreeMarker) -> (r: bool) {
        match (self, other) {
            (BehaviorTreeMarker::Enter(a), BehaviorTreeMarker::Enter(b)) => a.eq(b),
            (BehaviorTreeMarker::Marker(a), BehaviorTreeMarker::Marker(b)) => a.eq(b),
            (BehaviorTreeMarker::Exit(a, s), BehaviorTreeMarker::Exit(b, t)) => a.eq(b) && *s
                == *t,
            _ => false,
        }
    }
}

impl vstd::std_specs::cmp::PartialEqSpecImpl for BehaviorTreeMarker {
    open spec fn obeys_eq_spec() -> bool {
        true
    }

    open spec fn eq_spec(&self, other: &BehaviorTreeMarker) -> bool {
        match (self, other) {
            (BehaviorTreeMarker::Enter(a), BehaviorTreeMarker::Enter(b)) => a@ == b@,
            (BehaviorTreeMarker::Marker(a), BehaviorTreeMarker::Marker(b)) => a@ == b@,
            (BehaviorTreeMarker::Exit(a, s), BehaviorTreeMarker::Exit(b, t)) => a@ == b@ && s
                == t,
            _ => false,
        }
    }
}

/// The step-scoped audit trail: an ordered log of entry/marker/exit events,
/// together with the auxiliary stack of currently-open node names. The tree
/// only appends events; the stack pops only when an exit matches its top.
#[derive(Debug, Clone)]
pub struct BehaviorTreeAudit {
    /// The ordered event log of this call.
    pub events: Vec<BehaviorTreeMarker>,
    /// Names of the nodes whose `Enter` has no matching `Exit` yet.
    pub place: Vec<String>,
}

/// The exact effect of recording an entry: the event is appended and the
/// name is pushed on the stack of open frames. `None` stays `None`.
pub open spec fn audit_entered(
    pre: Option<BehaviorTreeAudit>,
    post: Option<BehaviorTreeAudit>,
    name: String,
) -> bool {
    match (pre, post) {
        (Option::None, Option::None) => true,
        (Option::Some(a), Option::Some(b)) => b.events@ == a.events@.push(
            BehaviorTreeMarker::Enter(name),
        ) && b.place@ == a.place@.push(name),
        _ => false,
    }
}

/// The exact effect of recording a marker: the event is appended and the
/// stack is untouched. `None` stays `None`.
pub open spec fn audit_marked(
    pre: Option<BehaviorTreeAudit>,
    post: Option<BehaviorTreeAudit>,
    name: String,
) -> bool {
    match (pre, post) {
        (Option::None, Option::None) => true,
        (Option::Some(a), Option::Some(b)) => b.events@ == a.events@.push(
            BehaviorTreeMarker::Marker(name),
        ) && b.place@ == a.place@,
        _ => false,
    }
}

/// The exact effect of recording an exit: the event is appended, and the
/// top open frame is popped exactly when its name matches the exiting
/// node's name. `None` stays `None`.
pub open spec fn audit_exited(
    pre: Option<BehaviorTreeAudit>,
    post: Option<BehaviorTreeAudit>,
    name: String,
    state: BehaviorTreeState,
) -> bool {
    match (pre, post) {
        (Option::None, Option::None) => true,
        (Option::Some(a), Option::Some(b)) => b.events@ == a.events@.push(
            BehaviorTreeMarker::Exit(name, state),
        ) && b.place@ == (if a.place@.len() > 0 && a.place@.last()@ == name@ {
            a.place@.drop_last()
        } else {
            a.place@
        }),
        _ => false,
    }
}

/// What any node's `resume_with` may do to an optional audit trail: its
/// presence is preserved, events are only appended, and the stack of open
/// frames is restored exactly when the node decided, or only grown when it
/// suspended (the suspended frames stay open for a later call).
pub open spec fn audit_step_ok(
    pre: Option<BehaviorTreeAudit>,
    post: Option<BehaviorTreeAudit>,
    r: BehaviorTreeState,
) -> bool {
    match (pre, post) {
        (Option::None, Option::None) => true,
        (Option::Some(a), Option::Some(b)) => a.events@.is_prefix_of(b.events@) && (if r
            is Waiting || r is WaitingForGas {
            a.place@.is_prefix_of(b.place@)
        } else {
            b.place@ == a.place@
        }),
        _ => false,
    }
}

/// The node contract's view of the audit trail, shared by every node.
pub trait BehaviorTreeAuditTrait {
    /// Record that the named node began its work for this call.
    fn enter(&mut self, node_name: &String);

    /// Record a free-form marker for the named node.
    fn mark(&mut self, node_name: &String);

    /// Record that the named node finished with the given outcome.
    fn exit(&mut self, node_name: &String, state: BehaviorTreeState);
}

impl BehaviorTreeAudit {
    /// A fresh, empty audit trail for one call.
    pub fn new() -> (a: BehaviorTreeAudit)
        ensures
            a.events@ == Seq::<BehaviorTreeMarker>::empty(),
            a.place@ == Seq::<String>::empty(),
    {
        BehaviorTreeAudit { events: Vec::new(), place: Vec::new() }
    }
}

impl BehaviorTreeAuditTrait for BehaviorTreeAudit {
    fn enter(&mut self, node_name: &String)
        ensures
            audit_entered(Option::Some(*old(self)), Option::Some(*final(self)), *node_name),
    {
        self.events.push(BehaviorTreeMarker::Enter(node_name.clone()));
        self.place.push(node_name.clone());
    }

    fn mark(&mut self, node_name: &String)
        ensures
            audit_marked(Option::Some(*old(self)), Option::Some(*final(self)), *node_name),
    {
        self.events.push(BehaviorTreeMarker::Marker(node_name.clone()));
    }

    fn exit(&mut self, node_name: &String, state: BehaviorTreeState)
        ensures
            audit_exited(
                Option::Some(*old(self)),
                Option::Some(*final(self)),
                *node_name,
                state,
            ),
    {
        self.events.push(BehaviorTreeMarker::Exit(node_name.clone(), state));
        let pop = match self.place.last() {
            Option::Some(current) => current.eq(node_name),
            Option::None => false,
        };
        if pop {
            self.place.pop();
        }
    }
}

/// Record an entry on an audit trail that may be absent.
pub fn audit_enter(audit: &mut Option<BehaviorTreeAudit>, node_name: &String)
    ensures
        audit_entered(*old(audit), *final(audit), *node_name),
{
    match audit {
        Option::Some(a) => a.enter(node_name),
        Option::None => (),
    }
}

/// Record a marker on an audit trail that may be absent.
pub fn audit_mark(audit: &mut Option<BehaviorTreeAudit>, node_name: &String)
    ensures
        audit_marked(*old(audit), *final(audit), *node_name),
{
    match audit {
        Option::Some(a) => a.mark(node_name),
        Option::None => (),
    }
}

/// Record an exit on an audit trail that may be absent.
pub fn audit_exit(
    audit: &mut Option<BehaviorTreeAudit>,
    node_name: &String,
    state: BehaviorTreeState,
)
    ensures
        audit_exited(*old(audit), *final(audit), *node_name, state),
{
    match audit {
        Option::Some(a) => a.exit(node_name, state),
        Option::None => (),
    }
}

/// Mid-call shape of the audit trail seen from a node that has recorded
/// its entry and not yet exited: the entry event stands in the log, and
/// the node's own frame sits on top of the frames it inherited.
pub open spec fn audit_open_ok(
    pre: Option<BehaviorTreeAudit>,
    cur: Option<BehaviorTreeAudit>,
    name: String,
) -> bool {
    match (pre, cur) {
        (Option::None, Option::None) => true,
        (Option::Some(a), Option::Some(b)) => a.events@.push(
            BehaviorTreeMarker::Enter(name),
        ).is_prefix_of(b.events@) && b.place@ == a.place@.push(name),
        _ => false,
    }
}

/// Recording an entry puts the trail in the mid-call shape.
pub proof fn lemma_audit_open_after_enter(
    a0: Option<BehaviorTreeAudit>,
    a1: Option<BehaviorTreeAudit>,
    name: String,
)
    requires
        audit_entered(a0, a1, name),
    ensures
        audit_open_ok(a0, a1, name),
{
    match (a0, a1) {
        (Option::Some(a), Option::Some(b)) => {
            lemma_prefix_refl(b.events@);
        },
        _ => (),
    }
}

/// A child call that decided leaves the mid-call shape intact.
pub proof fn lemma_audit_open_step(
    a0: Option<BehaviorTreeAudit>,
    a1: Option<BehaviorTreeAudit>,
    a2: Option<BehaviorTreeAudit>,
    name: String,
    rc: BehaviorTreeState,
)
    requires
        audit_open_ok(a0, a1, name),
        audit_step_ok(a1, a2, rc),
        !(rc is Waiting),
        !(rc is WaitingForGas),
    ensures
        audit_open_ok(a0, a2, name),
{
    match (a0, a1, a2) {
        (Option::Some(a), Option::Some(b), Option::Some(c)) => {
            lemma_prefix_trans(
                a.events@.push(BehaviorTreeMarker::Enter(name)),
                b.events@,
                c.events@,
            );
        },
        _ => (),
    }
}

/// A child call that suspended turns the mid-call shape into a finished
/// suspension: the node's own frame (and whatever the child left open)
/// stays open for a later call.
pub proof fn lemma_audit_open_suspend(
    a0: Option<BehaviorTreeAudit>,
    a1: Option<BehaviorTreeAudit>,
    a2: Option<BehaviorTreeAudit>,
    name: String,
    rc: BehaviorTreeState,
)
    requires
        audit_open_ok(a0, a1, name),
        audit_step_ok(a1, a2, rc),
        rc is Waiting || rc is WaitingForGas,
    ensures
        audit_step_ok(a0, a2, rc),
{
    match (a0, a1, a2) {
        (Option::Some(a), Option::Some(b), Option::Some(c)) => {
            lemma_prefix_push(a.events@, BehaviorTreeMarker::Enter(name));
            lemma_prefix_trans(
                a.events@,
                a.events@.push(BehaviorTreeMarker::Enter(name)),
                b.events@,
            );
            lemma_prefix_trans(a.events@, b.events@, c.events@);
            lemma_prefix_push(a.place@, name);
            lemma_prefix_trans(a.place@, b.place@, c.place@);
        },
        _ => (),
    }
}

/// A node that yields from the mid-call shape without recording an exit
/// reports a suspension correctly: its own frame is left open.
pub proof fn lemma_audit_open_yield(
    a0: Option<BehaviorTreeAudit>,
    a1: Option<BehaviorTreeAudit>,
    name: String,
    r: BehaviorTreeState,
)
    requires
        audit_open_ok(a0, a1, name),
        r is Waiting || r is WaitingForGas,
    ensures
        audit_step_ok(a0, a1, r),
{
    match (a0, a1) {
        (Option::Some(a), Option::Some(b)) => {
            lemma_prefix_push(a.events@, BehaviorTreeMarker::Enter(name));
            lemma_prefix_trans(
                a.events@,
                a.events@.push(BehaviorTreeMarker::Enter(name)),
                b.events@,
            );
            lemma_prefix_push(a.place@, name);
        },
        _ => (),
    }
}

/// Recording the exit from the mid-call shape closes the node's own frame
/// and restores the stack exactly as it was inherited.
pub proof fn lemma_audit_open_exit(
    a0: Option<BehaviorTreeAudit>,
    a1: Option<BehaviorTreeAudit>,
    a2: Option<BehaviorTreeAudit>,
    name: String,
    out: BehaviorTreeState,
)
    requires
        audit_open_ok(a0, a1, name),
        audit_exited(a1, a2, name, out),
    ensures
        audit_step_ok(a0, a2, out),
{
    match (a0, a1, a2) {
        (Option::Some(a), Option::Some(b), Option::Some(c)) => {
            lemma_prefix_push(a.events@, BehaviorTreeMarker::Enter(name));
            lemma_prefix_trans(
                a.events@,
                a.events@.push(BehaviorTreeMarker::Enter(name)),
                b.events@,
            );
            lemma_prefix_push(b.events@, BehaviorTreeMarker::Exit(name, out));
            lemma_prefix_trans(a.events@, b.events@, c.events@);
            assert(b.place@.len() > 0 && b.place@.last()@ == name@);
            assert(c.place@ =~= a.place@);
            if out is Waiting || out is WaitingForGas {
                lemma_prefix_refl(a.place@);
            }
        },
        _ => (),
    }
}

/// Where one call of a node writes its own brackets in the event log:
/// the first event the call appends is the node's `Enter`, and when the
/// call decided, the node's own `Exit` with that outcome closes the log.
/// A suspended call appends no such `Exit`: the entry stays unmatched
/// for a later call.
pub open spec fn audit_bracketed(
    pre: Option<BehaviorTreeAudit>,
    post: Option<BehaviorTreeAudit>,
    name: String,
    r: BehaviorTreeState,
) -> bool {
    match (pre, post) {
        (Option::Some(a), Option::Some(b)) => b.events@.len() > a.events@.len()
            && b.events@[a.events@.len() as int] == BehaviorTreeMarker::Enter(name) && ((r
            is Failed || r is Complete) ==> b.events@.last() == BehaviorTreeMarker::Exit(
            name,
            r,
        )),
        _ => true,
    }
}

/// A node that suspends after running a child has written its brackets:
/// its entry stands first among the new events, and no exit follows.
pub proof fn lemma_audit_bracket_suspend(
    a0: Option<BehaviorTreeAudit>,
    a1: Option<BehaviorTreeAudit>,
    a2: Option<BehaviorTreeAudit>,
    name: String,
    rc: BehaviorTreeState,
)
    requires
        audit_open_ok(a0, a1, name),
        audit_step_ok(a1, a2, rc),
        rc is Waiting || rc is WaitingForGas,
    ensures
        audit_bracketed(a0, a2, name, rc),
{
    match (a0, a1, a2) {
        (Option::Some(a), Option::Some(b), Option::Some(c)) => {
            let entered = a.events@.push(BehaviorTreeMarker::Enter(name));
            lemma_prefix_trans(entered, b.events@, c.events@);
            lemma_prefix_index(entered, c.events@, a.events@.len() as int);
        },
        _ => (),
    }
}

/// A node that yields straight from the mid-call shape has written its
/// brackets: its entry stands first among the new events.
pub proof fn lemma_audit_bracket_yield(
    a0: Option<BehaviorTreeAudit>,
    a1: Option<BehaviorTreeAudit>,
    name: String,
    r: BehaviorTreeState,
)
    requires
        audit_open_ok(a0, a1, name),
        r is Waiting || r is WaitingForGas,
    ensures
        audit_bracketed(a0, a1, name, r),
{
    match (a0, a1) {
        (Option::Some(a), Option::Some(b)) => {
            let entered = a.events@.push(BehaviorTreeMarker::Enter(name));
            lemma_prefix_index(entered, b.events@, a.events@.len() as int);
        },
        _ => (),
    }
}

/// A node that records its exit from the mid-call shape has written its
/// brackets: its entry stands first among the new events and its exit
/// stands last.
pub proof fn lemma_audit_bracket_exit(
    a0: Option<BehaviorTreeAudit>,
    a1: Option<BehaviorTreeAudit>,
    a2: Option<BehaviorTreeAudit>,
    name: String,
    out: BehaviorTreeState,
)
    requires
        audit_open_ok(a0, a1, name),
        audit_exited(a1, a2, name, out),
    ensures
        audit_bracketed(a0, a2, name, out),
{
    match (a0, a1, a2) {
        (Option::Some(a), Option::Some(b), Option::Some(c)) => {
            let entered = a.events@.push(BehaviorTreeMarker::Enter(name));
            lemma_prefix_push(b.events@, BehaviorTreeMarker::Exit(name, out));
            lemma_prefix_trans(entered, b.events@, c.events@);
            lemma_prefix_index(entered, c.events@, a.events@.len() as int);
        },
        _ => (),
    }
}

/// A prefix agrees with the whole sequence at every index it covers.
pub proof fn lemma_prefix_index<T>(a: Seq<T>, b: Seq<T>, i: int)
    requires
        a.is_prefix_of(b),
        0 <= i < a.len(),
    ensures
        b[i] == a[i],
{
    assert(a =~= b.subrange(0, a.len() as int));
}

/// Every sequence is a prefix of itself.
pub proof fn lemma_prefix_refl<T>(s: Seq<T>)
    ensures
        s.is_prefix_of(s),
{
    assert(s =~= s.subrange(0, s.len() as int));
}

/// A sequence is a prefix of itself extended by one element.
pub proof fn lemma_prefix_push<T>(s: Seq<T>, x: T)
    ensures
        s.is_prefix_of(s.push(x)),
{
    assert(s =~= s.push(x).subrange(0, s.len() as int));
}

/// Being a prefix is transitive.
pub proof fn lemma_prefix_trans<T>(a: Seq<T>, b: Seq<T>, c: Seq<T>)
    requires
        a.is_prefix_of(b),
        b.is_prefix_of(c),
    ensures
        a.is_prefix_of(c),
{
    assert(a =~= c.subrange(0, a.len() as int));
}

} // verus!
