use westiny::behavior_tree::{LeafNode, Node, NodeState, SequenceNode};

#[test]
pub fn behavior_tree_sequence_1_leaf() {
    let clos = |arg: &mut u8| {
        *arg += 1;
        NodeState::Running
    };

    let nodes: Vec<Box<dyn Node<u8>>> = vec![Box::new(LeafNode::new(clos))];
    let mut root = SequenceNode::new(nodes);
    let mut arg = 3;
    root.execute(&mut arg);
    assert_eq!(4, arg);
    assert_eq!(NodeState::Running, root.state);
}

#[test]
pub fn behavior_tree_sequence_2_leaf_success() {
    let nodes: Vec<Box<dyn Node<u8>>> = vec![
        Box::new(LeafNode::new(|arg: &mut u8| {
            *arg += 1;
            NodeState::Success
        })),
        Box::new(LeafNode::new(|arg: &mut u8| {
            *arg += 20;
            if *arg < 40 {
                NodeState::Running
            } else {
                NodeState::Success
            }
        })),
    ];

    let mut root = SequenceNode::new(nodes);
    let mut arg = 0u8;
    root.execute(&mut arg);
    assert_eq!(1, arg, "Execute first");
    assert_eq!(NodeState::Running, root.state);

    root.execute(&mut arg);
    assert_eq!(21, arg, "Execute second");
    assert_eq!(NodeState::Running, root.state);

    root.execute(&mut arg);
    assert_eq!(41, arg, "Execute second again");
    assert_eq!(NodeState::Running, root.state);

    root.execute(&mut arg);
    assert_eq!(41, arg, "Execute none");
    assert_eq!(NodeState::Success, root.state);
}

#[test]
pub fn behavior_tree_2_leaf_failure() {
    let nodes: Vec<Box<dyn Node<u8>>> = vec![
        Box::new(LeafNode::new(|arg: &mut u8| {
            *arg += 1;
            NodeState::Failure
        })),
        Box::new(LeafNode::new(|arg: &mut u8| {
            *arg += 10;
            NodeState::Success
        })),
    ];

    let mut root = SequenceNode::new(nodes);
    let mut arg = 0u8;
    root.execute(&mut arg);
    assert_eq!(1, arg);
    assert_eq!(NodeState::Failure, root.state());
    assert_eq!(NodeState::Uninit, root.children[1].state());

    root.execute(&mut arg);
    assert_eq!(1, arg);
    assert_eq!(NodeState::Failure, root.state());
    assert_eq!(NodeState::Uninit, root.children[1].state())
}

#[test]
pub fn sequence_node_reset() {
    let mut dummy = 0u8;

    // Create leaf nodes & exec them to modify their state
    let mut action1 = LeafNode::new(|_arg: &mut u8| NodeState::Failure);
    action1.execute(&mut dummy);
    assert_eq!(NodeState::Failure, action1.state);

    let mut action2 = LeafNode::new(|_arg: &mut u8| NodeState::Failure);
    action2.execute(&mut dummy);
    assert_eq!(NodeState::Failure, action2.state);

    let nodes: Vec<Box<dyn Node<u8>>> = vec![Box::new(action1), Box::new(action2)];

    let mut seq = SequenceNode::new(nodes);

    seq.execute(&mut dummy);
    assert_eq!(NodeState::Failure, seq.state());

    seq.reset();
    assert_eq!(NodeState::Uninit, seq.state());
    assert_eq!(NodeState::Uninit, seq.children[0].state());
    assert_eq!(NodeState::Uninit, seq.children[1].state());
}

#[test]
fn new_nodes_are_uninit() {
    let leaf = LeafNode::new(|_arg: &mut u8| NodeState::Success);
    assert_eq!(NodeState::Uninit, Node::<u8>::state(&leaf));
    let seq: SequenceNode<u8> = SequenceNode::new(vec![]);
    assert_eq!(NodeState::Uninit, seq.state());
    assert_eq!(NodeState::Uninit, NodeState::default());
}

#[test]
fn empty_sequence_succeeds() {
    let mut seq: SequenceNode<u8> = SequenceNode::new(vec![]);
    let mut arg = 7u8;
    assert_eq!(NodeState::Success, seq.execute(&mut arg));
    assert_eq!(7, arg);
}

#[test]
fn failure_of_second_child_fails_sequence() {
    let nodes: Vec<Box<dyn Node<u8>>> = vec![
        Box::new(LeafNode::new(|arg: &mut u8| {
            *arg += 1;
            NodeState::Success
        })),
        Box::new(LeafNode::new(|arg: &mut u8| {
            *arg += 2;
            NodeState::Failure
        })),
        Box::new(LeafNode::new(|arg: &mut u8| {
            *arg += 100;
            NodeState::Success
        })),
    ];
    let mut root = SequenceNode::new(nodes);
    let mut arg = 0u8;
    assert_eq!(NodeState::Running, root.execute(&mut arg));
    assert_eq!(NodeState::Failure, root.execute(&mut arg));
    assert_eq!(3, arg);
    // the failed child is not run again, nor the one after it
    assert_eq!(NodeState::Failure, root.execute(&mut arg));
    assert_eq!(3, arg);
    assert_eq!(NodeState::Uninit, root.children[2].state());
}

#[test]
fn reset_sequence_runs_again_from_first_child() {
    let nodes: Vec<Box<dyn Node<u8>>> = vec![Box::new(LeafNode::new(|arg: &mut u8| {
        *arg += 1;
        NodeState::Success
    }))];
    let mut root = SequenceNode::new(nodes);
    let mut arg = 0u8;
    assert_eq!(NodeState::Running, root.execute(&mut arg));
    assert_eq!(NodeState::Success, root.execute(&mut arg));
    assert_eq!(1, arg);
    root.reset();
    assert_eq!(NodeState::Running, root.execute(&mut arg));
    assert_eq!(2, arg);
}

#[test]
fn nested_sequences() {
    let inner: Vec<Box<dyn Node<u8>>> = vec![Box::new(LeafNode::new(|arg: &mut u8| {
        *arg += 5;
        NodeState::Success
    }))];
    let nodes: Vec<Box<dyn Node<u8>>> = vec![Box::new(SequenceNode::new(inner))];
    let mut root = SequenceNode::new(nodes);
    let mut arg = 0u8;
    // the inner sequence reports Running after its child succeeded, so the outer one runs
    assert_eq!(NodeState::Running, root.execute(&mut arg));
    assert_eq!(5, arg);
    assert_eq!(NodeState::Running, root.execute(&mut arg));
    assert_eq!(NodeState::Success, root.children[0].state());
    assert_eq!(NodeState::Success, root.execute(&mut arg));
    assert_eq!(5, arg);
}
