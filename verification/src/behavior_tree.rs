use vstd::prelude::*;

verus! {

/// The state of a behaviour tree node after its latest execution.
#[derive(Copy, Clone, PartialEq, Eq, Debug, Structural)]
pub enum NodeState {
    Uninit,
    Success,
    Failure,
    Running,
}

impl Default for NodeState {
    /// A node that has not run yet, or has been reset, is `Uninit`.
    fn default() -> (r: NodeState)
        ensures
            r == NodeState::Uninit,
    {
        NodeState::Uninit
    }
}

/// The abstract form of a behaviour tree node: the state it reports and what one execution
/// of it may do. `'a` is the lifetime of the argument references that an action's `runs`
/// speaks of; it plays no part in what the form says.
#[verifier::reject_recursive_types(T)]
pub enum NodeModel<'a, T> {
    /// A node whose every execution runs an action once. The action can be run on the
    /// arguments `a0` for which `accepts(a0)` holds, and `runs(a, r)` holds when a run may act
    /// on the argument behind `a` and return `r`.
    Action {
        state: NodeState,
        accepts: spec_fn(T) -> bool,
        runs: spec_fn(&'a mut T, NodeState) -> bool,
    },
    /// A node that runs its children, in this order.
    Sequence { state: NodeState, children: Seq<NodeModel<'a, T>> },
}

impl<'a, T> NodeModel<'a, T> {
    /// The state that the node reports.
    pub open spec fn state(self) -> NodeState {
        match self {
            NodeModel::Action { state, .. } => state,
            NodeModel::Sequence { state, .. } => state,
        }
    }
}

/// The states that the nodes report, in order.
pub open spec fn states_of<'a, T>(nodes: Seq<NodeModel<'a, T>>) -> Seq<NodeState> {
    Seq::new(nodes.len(), |i: int| nodes[i].state())
}

/// `k` is the first child that has not succeeded yet.
pub open spec fn is_first_unfinished(states: Seq<NodeState>, k: int) -> bool {
    &&& 0 <= k < states.len()
    &&& states[k] != NodeState::Success
    &&& forall|j: int| 0 <= j < k ==> states[j] == NodeState::Success
}

/// Every child has succeeded.
pub open spec fn all_succeeded(states: Seq<NodeState>) -> bool {
    forall|j: int| 0 <= j < states.len() ==> states[j] == NodeState::Success
}

/// What a sequence reports when the child that it ran reported `child`:
/// a successful child leaves the sequence running.
pub open spec fn sequence_result(child: NodeState) -> NodeState {
    if child == NodeState::Success {
        NodeState::Running
    } else {
        child
    }
}

/// The child that a sequence with children in the forms `children` executes next, if any:
/// its first child that has neither succeeded nor failed.
pub open spec fn next_child<'a, T>(children: Seq<NodeModel<'a, T>>) -> Option<int> {
    let states = states_of(children);
    let k = choose|k: int| is_first_unfinished(states, k);
    if is_first_unfinished(states, k) && states[k] != NodeState::Failure {
        Some(k)
    } else {
        None
    }
}

/// A node in the form `m` can be executed on the argument `a`: the action that the execution
/// runs, if any, accepts `a`.
pub open spec fn can_execute<'a, T>(m: NodeModel<'a, T>, a: T) -> bool
    decreases m,
{
    match m {
        NodeModel::Action { accepts, .. } => accepts(a),
        NodeModel::Sequence { state: _, children } => {
            if next_child(children) is Some && 0 <= next_child(children)->0 < children.len() {
                can_execute(children[next_child(children)->0], a)
            } else {
                true
            }
        },
    }
}

/// One execution of a node in the form `before` may leave it in the form `after` and report `r`.
///
/// An action runs once and reports what it returned. A sequence looks for its first child
/// that has not succeeded: if there is none it succeeds, if that child failed it fails, and
/// otherwise it executes that child once, leaves the others as they were and reports
/// `sequence_result` of what the child reported.
pub open spec fn executes<'a, T>(before: NodeModel<'a, T>, after: NodeModel<'a, T>, r: NodeState) -> bool
    decreases before,
{
    match before {
        NodeModel::Action { state: _, accepts, runs } => after == (NodeModel::Action { state: r, accepts, runs }),
        NodeModel::Sequence { state: _, children } => {
            match after {
                NodeModel::Sequence { state: after_state, children: after_children } => {
                    if after_state != r || after_children.len() != children.len() {
                        false
                    } else if next_child(children) is Some {
                        let k = next_child(children)->0;
                        &&& 0 <= k < children.len()
                        &&& executes(children[k], after_children[k], after_children[k].state())
                        &&& r == sequence_result(after_children[k].state())
                        &&& forall|j: int| 0 <= j < children.len() && j != k
                            ==> after_children[j] == children[j]
                    } else if all_succeeded(states_of(children)) {
                        r == NodeState::Success && after_children == children
                    } else {
                        r == NodeState::Failure && after_children == children
                    }
                },
                NodeModel::Action { .. } => false,
            }
        },
    }
}

/// The action that an execution from the form `before` to the form `after` ran, in its form
/// after the run; `None` when no action ran, so the argument stayed as it was.
pub open spec fn ran_action<'a, T>(before: NodeModel<'a, T>, after: NodeModel<'a, T>) -> Option<NodeModel<'a, T>>
    decreases before,
{
    match before {
        NodeModel::Action { .. } => Some(after),
        NodeModel::Sequence { state: _, children } => {
            match after {
                NodeModel::Sequence { state: _, children: after_children } => {
                    if next_child(children) is Some && 0 <= next_child(children)->0 < children.len() {
                        let k = next_child(children)->0;
                        ran_action(children[k], after_children[k])
                    } else {
                        None
                    }
                },
                NodeModel::Action { .. } => None,
            }
        },
    }
}

/// The form of a node after a reset: every node in it is back to `Uninit`.
pub open spec fn reset_model<'a, T>(m: NodeModel<'a, T>) -> NodeModel<'a, T>
    decreases m,
{
    match m {
        NodeModel::Action { state: _, accepts, runs } => NodeModel::Action { state: NodeState::Uninit, accepts, runs },
        NodeModel::Sequence { state: _, children } => NodeModel::Sequence {
            state: NodeState::Uninit,
            children: Seq::new(
                children.len(),
                |i: int|
                    if 0 <= i < children.len() {
                        reset_model(children[i])
                    } else {
                        children[i]
                    },
            ),
        },
    }
}

/// A node of a behaviour tree that acts on a value of type `T`.
pub trait Node<T> {
    /// The abstract form of the node.
    spec fn model<'a>(&self) -> NodeModel<'a, T>;

    fn state(&self) -> (r: NodeState)
        ensures
            r == self.model().state(),
    ;

    /// Executes the node once on `args`; the action that this execution runs, if any, must
    /// accept the argument as it is.
    fn execute(&mut self, args: &mut T) -> (r: NodeState)
        requires
            can_execute(old(self).model(), *old(args)),
        ensures
            executes(old(self).model(), final(self).model(), r),
            r == final(self).model().state(),
            match ran_action(old(self).model(), final(self).model()) {
                Some(NodeModel::Action { state, runs, .. }) => exists|a: &mut T|
                    #[trigger] runs(a, state) && *a == *old(args) && *final(a) == *final(args),
                _ => *final(args) == *old(args),
            },
    ;

    fn reset(&mut self)
        ensures
            final(self).model() == reset_model(old(self).model()),
    ;
}

/// Runs its children one after the other: each call of `execute` advances the first child
/// that has not succeeded yet.
#[verifier::reject_recursive_types(T)]
pub struct SequenceNode<T> {
    pub state: NodeState,
    pub children: Vec<Box<dyn Node<T>>>,
}

impl<T> SequenceNode<T> {
    pub fn new(children: Vec<Box<dyn Node<T>>>) -> (r: Self)
        ensures
            r.state == NodeState::Uninit,
            r.children@ == children@,
    {
        SequenceNode { state: NodeState::default(), children }
    }

    /// The forms of the children, in order.
    pub open spec fn child_models<'a>(&self) -> Seq<NodeModel<'a, T>> {
        Seq::new(self.children@.len(), |i: int| self.children@[i].model())
    }

    /// The states of the children, in order.
    pub open spec fn child_states(&self) -> Seq<NodeState> {
        states_of(self.child_models())
    }
}

/// A sequence has at most one first unfinished child.
pub proof fn lemma_first_unfinished_unique(states: Seq<NodeState>, k1: int, k2: int)
    requires
        is_first_unfinished(states, k1),
        is_first_unfinished(states, k2),
    ensures
        k1 == k2,
{
    if k1 < k2 {
        assert(states[k1] == NodeState::Success);
    } else if k2 < k1 {
        assert(states[k2] == NodeState::Success);
    }
}

impl<T> Node<T> for SequenceNode<T> {
    open spec fn model<'a>(&self) -> NodeModel<'a, T> {
        NodeModel::Sequence { state: self.state, children: self.child_models() }
    }

    fn state(&self) -> (r: NodeState) {
        self.state
    }

    fn execute(&mut self, args: &mut T) -> (r: NodeState)
        ensures
            final(self).children@.len() == old(self).children@.len(),
            r == NodeState::Success <==> all_succeeded(old(self).child_states()),
            all_succeeded(old(self).child_states()) ==> {
                &&& final(self).children@ == old(self).children@
                &&& *final(args) == *old(args)
            },
            forall|k: int| #[trigger] is_first_unfinished(old(self).child_states(), k) ==> {
                if old(self).child_states()[k] == NodeState::Failure {
                    &&& final(self).children@ == old(self).children@
                    &&& *final(args) == *old(args)
                } else {
                    forall|j: int| 0 <= j < old(self).children@.len() && j != k
                        ==> final(self).children@[j] == old(self).children@[j]
                }
            },
    {
        let len = self.children.len();
        let ghost before = old(self).child_models();
        let ghost states = old(self).child_states();
        for idx in 0..len
            invariant
                len == self.children@.len(),
                self.children@ == old(self).children@,
                self.state == old(self).state,
                can_execute(old(self).model(), *old(args)),
                *args == *old(args),
                before == old(self).child_models(),
                states == old(self).child_states(),
                forall|j: int| 0 <= j < idx ==> states[j] == NodeState::Success,
        {
            let child_state = self.children[idx].state();
            assert(states[idx as int] == child_state);
            if child_state == NodeState::Running || child_state == NodeState::Uninit {
                assert(is_first_unfinished(states, idx as int));
                proof {
                    let k = choose|k: int| is_first_unfinished(states, k);
                    lemma_first_unfinished_unique(states, k, idx as int);
                    assert(next_child(before) == Some(idx as int));
                    assert(before[idx as int] == self.children@[idx as int].model());
                }
                let child_result = self.children[idx].execute(args);
                self.state = child_result;
                if self.state == NodeState::Success {
                    self.state = NodeState::Running;
                }
                proof {
                    let k = choose|k: int| is_first_unfinished(states, k);
                    lemma_first_unfinished_unique(states, k, idx as int);
                    assert(!all_succeeded(states));
                    let after = self.child_models();
                    assert(after[idx as int] == self.children@[idx as int].model());
                    assert forall|j: int| 0 <= j < len && j != idx implies after[j] == before[j] by {
                        assert(self.children@[j] == old(self).children@[j]);
                    }
                    assert forall|k2: int| #[trigger] is_first_unfinished(states, k2) implies k2 == idx by {
                        lemma_first_unfinished_unique(states, k2, idx as int);
                    }
                }
                return self.state;
            } else if child_state == NodeState::Failure {
                assert(is_first_unfinished(states, idx as int));
                self.state = NodeState::Failure;
                proof {
                    let k = choose|k: int| is_first_unfinished(states, k);
                    lemma_first_unfinished_unique(states, k, idx as int);
                    assert(!all_succeeded(states));
                    assert(self.child_models() =~= before);
                    assert forall|k2: int| #[trigger] is_first_unfinished(states, k2) implies k2 == idx by {
                        lemma_first_unfinished_unique(states, k2, idx as int);
                    }
                }
                return self.state;
            }
        }
        self.state = NodeState::Success;
        proof {
            assert(self.child_models() =~= before);
            assert forall|k: int| !is_first_unfinished(states, k) by {}
        }
        self.state
    }

    fn reset(&mut self)
        ensures
            final(self).children@.len() == old(self).children@.len(),
            forall|i: int| 0 <= i < final(self).children@.len()
                ==> (#[trigger] final(self).children@[i]).model() == reset_model(old(self).children@[i].model()),
    {
        self.state = NodeState::Uninit;
        let len = self.children.len();
        for idx in 0..len
            invariant
                len == self.children@.len(),
                len == old(self).children@.len(),
                self.state == NodeState::Uninit,
                forall|i: int| 0 <= i < idx ==> (#[trigger] self.children@[i]).model()
                    == reset_model(old(self).children@[i].model()),
                forall|i: int| idx <= i < len ==> self.children@[i] == old(self).children@[i],
        {
            self.children[idx].reset();
        }
        proof {
            let m = old(self).model();
            assert(self.child_models() =~= reset_model(m)->Sequence_children);
        }
    }
}

/// An execution of a sequence that has a child to run executes exactly that child, once:
/// the child's own execution is what the sequence reports (a success as `Running`), the other
/// children stay as they were, and the action that ran, if any, is the one that the child ran.
pub proof fn lemma_sequence_runs_next_child<'a, T>(before: NodeModel<'a, T>, after: NodeModel<'a, T>, r: NodeState)
    requires
        before is Sequence,
        next_child(before->Sequence_children) is Some,
        executes(before, after, r),
    ensures
        ({
            let children = before->Sequence_children;
            let after_children = after->Sequence_children;
            let k = next_child(children)->0;
            &&& after is Sequence
            &&& 0 <= k < children.len()
            &&& after_children.len() == children.len()
            &&& executes(children[k], after_children[k], after_children[k].state())
            &&& r == sequence_result(after_children[k].state())
            &&& after.state() == r
            &&& forall|j: int| 0 <= j < children.len() && j != k ==> after_children[j] == children[j]
            &&& ran_action(before, after) == ran_action(children[k], after_children[k])
        }),
{
}

/// A sequence with no child to run leaves its children and the argument as they are: it
/// succeeds when every child has succeeded and fails otherwise.
pub proof fn lemma_sequence_without_next_child<'a, T>(before: NodeModel<'a, T>, after: NodeModel<'a, T>, r: NodeState)
    requires
        before is Sequence,
        next_child(before->Sequence_children) is None,
        executes(before, after, r),
    ensures
        after is Sequence,
        after->Sequence_children == before->Sequence_children,
        after.state() == r,
        ran_action(before, after) is None,
        r == (if all_succeeded(states_of(before->Sequence_children)) {
            NodeState::Success
        } else {
            NodeState::Failure
        }),
{
}

/// A sequence whose first unfinished child failed stays failed: executing it again finds the
/// same failed child, reports `Failure` again, and runs no action.
pub proof fn lemma_failed_sequence_stays_failed<'a, T>(
    before: NodeModel<'a, T>,
    after: NodeModel<'a, T>,
    r: NodeState,
    k: int,
)
    requires
        before is Sequence,
        is_first_unfinished(states_of(before->Sequence_children), k),
        states_of(before->Sequence_children)[k] == NodeState::Failure,
        executes(before, after, r),
    ensures
        r == NodeState::Failure,
        after->Sequence_children == before->Sequence_children,
        ran_action(before, after) is None,
        next_child(after->Sequence_children) is None,
        !all_succeeded(states_of(after->Sequence_children)),
{
    let states = states_of(before->Sequence_children);
    let c = choose|c: int| is_first_unfinished(states, c);
    lemma_first_unfinished_unique(states, c, k);
}

/// After a reset, a sequence with children runs its first child on the next execution.
pub proof fn lemma_reset_restarts_from_first_child<'a, T>(m: NodeModel<'a, T>)
    requires
        m is Sequence,
        m->Sequence_children.len() > 0,
    ensures
        reset_model(m).state() == NodeState::Uninit,
        next_child(reset_model(m)->Sequence_children) == Some(0int),
{
    let children = reset_model(m)->Sequence_children;
    let states = states_of(children);
    assert(children[0] == reset_model(m->Sequence_children[0]));
    assert(states[0] == NodeState::Uninit);
    assert(is_first_unfinished(states, 0));
    let c = choose|c: int| is_first_unfinished(states, c);
    lemma_first_unfinished_unique(states, c, 0);
}

/// What a sequence reports is never `Success` when it ran a child: a successful child leaves
/// the sequence running, any other result is passed on.
pub proof fn lemma_ran_child_never_succeeds(child: NodeState)
    ensures
        sequence_result(child) != NodeState::Success,
        child != NodeState::Success ==> sequence_result(child) == child,
{
}

/// The arguments that `action` can be run on: those whose every reference meets the action's
/// precondition.
pub open spec fn action_accepts<'a, T, F: Fn(&mut T) -> NodeState>(action: F) -> spec_fn(T) -> bool {
    |a0: T| forall|a: &'a mut T| *a == a0 ==> #[trigger] call_requires(action, (a,))
}

/// What one run of `action` may do: act on the argument behind `a` and return `r`.
pub open spec fn action_runs<'a, T, F: Fn(&mut T) -> NodeState>(action: F) -> spec_fn(&'a mut T, NodeState) -> bool {
    |a: &'a mut T, r: NodeState| call_ensures(action, (a,), r)
}

/// A leaf that runs its action on each execution.
pub struct LeafNode<F> {
    pub state: NodeState,
    pub action: F,
}

impl<F> LeafNode<F> {
    pub fn new(action: F) -> (r: Self)
        ensures
            r.state == NodeState::Uninit,
            r.action == action,
    {
        LeafNode { state: NodeState::default(), action }
    }
}

/// The form of a leaf is an action in the leaf's state that accepts and runs as the leaf's
/// action does.
pub proof fn lemma_leaf_node<F: Fn(&mut T) -> NodeState, T>(leaf: &LeafNode<F>)
    ensures
        Node::<T>::model(leaf) == (NodeModel::Action {
            state: leaf.state,
            accepts: action_accepts::<T, F>(leaf.action),
            runs: action_runs::<T, F>(leaf.action),
        }),
{
}

impl<F, T> Node<T> for LeafNode<F> where F: Fn(&mut T) -> NodeState {
    open spec fn model<'a>(&self) -> NodeModel<'a, T> {
        NodeModel::Action {
            state: self.state,
            accepts: action_accepts(self.action),
            runs: action_runs(self.action),
        }
    }

    fn state(&self) -> (r: NodeState) {
        self.state
    }

    fn execute(&mut self, args: &mut T) -> (r: NodeState)
        ensures
            final(self).action == old(self).action,
    {
        let r = (self.action)(args);
        self.state = r;
        proof {
            let x = choose|x: &mut T| #[trigger] call_ensures(self.action, (x,), r) && *x == *old(args)
                && *final(x) == *final(args);
            let m = Node::<T>::model(&*self);
            assert(m->Action_runs == action_runs::<T, F>(self.action));
            assert((m->Action_runs)(x, r));
        }
        self.state
    }

    fn reset(&mut self)
        ensures
            final(self).action == old(self).action,
    {
        self.state = NodeState::Uninit;
    }
}

} // verus!
