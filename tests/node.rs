use eight_puzzle::node::Node;
use eight_puzzle::state::{State, BLANK};
use std::rc::Rc;

#[test]
fn nodes_are_compared_by_their_states() {
    let s = State::new([
        [1, 2, 3],
        [4, 5, BLANK],
        [7, 6, 8],
    ])
    .unwrap();

    let n0 = Node::new(0, 1, None, &s);
    let n1 = Node::new(1, 1, None, &s.move_up().unwrap());

    assert!(n0 == n0);
    assert!(n0 != n1);
}

#[test]
fn nodes_of_one_state_are_equal_whatever_their_costs() {
    let s = State::new([
        [1, 2, 3],
        [4, 5, BLANK],
        [7, 6, 8],
    ])
    .unwrap();
    let root = Node::new(0, 0, None, &s);
    let n0 = Node::new(3, 4, Some(Rc::new(root)), &s);
    let n1 = Node::new(7, 1, None, &s);
    assert_eq!(n0.f, 7);
    assert_eq!(n1.f, 8);
    assert!(n0 == n1);
}

#[test]
fn shared_nodes_keep_their_fields() {
    let s = State::new([
        [1, 2, 3],
        [4, 5, BLANK],
        [7, 6, 8],
    ])
    .unwrap();
    let root = Rc::new(Node::new(0, 2, None, &s));
    let n = Node::new(1, 2, Some(Rc::clone(&root)), &s.move_up().unwrap());
    let m = n.share();
    assert_eq!(m.g, 1);
    assert_eq!(m.f, 3);
    assert!(m.state == n.state);
    assert_eq!(m.parent.unwrap().g, 0);
}
