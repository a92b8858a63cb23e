use eight_puzzle::node::Node;
use eight_puzzle::path::Path;
use eight_puzzle::state::{State, BLANK};
use std::rc::Rc;

#[test]
fn iterating_paths() {
    let state = State::new([
        [1, 2, 8],
        [4, BLANK, 5],
        [3, 6, 7],
    ])
    .unwrap();
    let n0 = Node::new(0, 0, None, &state);
    let n1 = Node::new(1, 0, Some(Rc::new(n0)), &state);
    let n2 = Node::new(2, 0, Some(Rc::new(n1)), &state);
    let p = Path::from(&n2);

    let nodes = p.to_vec_nodes();

    assert!(nodes.len() == 3);
    assert!(nodes[0].g == 0);
    assert!(nodes[1].g == 1);
    assert!(nodes[2].g == 2);
}

#[test]
fn path_states_run_from_root_to_end() {
    let s0 = State::new([
        [1, 2, 8],
        [4, BLANK, 5],
        [3, 6, 7],
    ])
    .unwrap();
    let s1 = s0.move_up().unwrap();
    let s2 = s1.move_left().unwrap();
    let n0 = Node::new(0, 0, None, &s0);
    let n1 = Node::new(1, 0, Some(Rc::new(n0)), &s1);
    let n2 = Node::new(2, 0, Some(Rc::new(n1)), &s2);
    let p = Path::from(&n2);
    let states = p.to_vec_states();
    assert_eq!(states.len(), 3);
    assert!(*states[0] == s0);
    assert!(*states[1] == s1);
    assert!(*states[2] == s2);
}

#[test]
fn a_root_alone_is_a_path_of_one_state() {
    let s0 = State::new([
        [1, 2, 3],
        [4, 5, 6],
        [7, 8, BLANK],
    ])
    .unwrap();
    let p = Path::from(&Node::new(0, 0, None, &s0));
    assert_eq!(p.to_vec_nodes().len(), 1);
    assert!(*p.to_vec_states()[0] == s0);
}
