use eight_puzzle::frontier::Frontier;
use eight_puzzle::node::Node;
use eight_puzzle::state::{State, BLANK};
use std::rc::Rc;

fn grid() -> State {
    State::new([
        [1, 2, 3],
        [4, BLANK, 5],
        [6, 7, 8],
    ])
    .unwrap()
}

#[test]
fn a_worse_insertion_keeps_priority_and_parent() {
    let s = grid();
    let other = s.move_up().unwrap();
    let mut frontier = Frontier::new();
    let root = Rc::new(Node::new(0, 0, None, &other));
    assert!(frontier.insert(Node::new(2, 3, None, &s)));
    assert!(!frontier.insert(Node::new(4, 3, Some(Rc::clone(&root)), &s)));
    assert!(!frontier.insert(Node::new(2, 3, Some(Rc::clone(&root)), &s)));
    assert_eq!(frontier.current_priority(&s), Some(5));
    let n = frontier.pop_min().unwrap();
    assert_eq!(n.f, 5);
    assert_eq!(n.g, 2);
    assert!(n.parent.is_none());
}

#[test]
fn a_better_insertion_updates_priority_and_parent() {
    let s = grid();
    let other = s.move_up().unwrap();
    let mut frontier = Frontier::new();
    let root = Rc::new(Node::new(0, 0, None, &other));
    assert!(frontier.insert(Node::new(4, 3, None, &s)));
    assert!(frontier.insert(Node::new(1, 3, Some(Rc::clone(&root)), &s)));
    assert_eq!(frontier.current_priority(&s), Some(4));
    let n = frontier.pop_min().unwrap();
    assert_eq!(n.f, 4);
    assert!(n.parent.unwrap().state == other);
    assert!(frontier.pop_min().is_none());
}

#[test]
fn decrease_priority_rejects_a_worse_estimate() {
    let s = grid();
    let mut frontier = Frontier::new();
    frontier.insert(Node::new(1, 1, None, &s));
    assert!(!frontier.decrease_priority(Node::new(1, 5, None, &s)));
    assert_eq!(frontier.current_priority(&s), Some(2));
    assert!(frontier.decrease_priority(Node::new(0, 1, None, &s)));
    assert_eq!(frontier.current_priority(&s), Some(1));
}

#[test]
fn nodes_come_out_by_ascending_estimate() {
    let s = grid();
    let a = s.move_up().unwrap();
    let b = s.move_down().unwrap();
    let mut frontier = Frontier::new();
    frontier.insert(Node::new(0, 7, None, &s));
    frontier.insert(Node::new(0, 3, None, &a));
    frontier.insert(Node::new(0, 5, None, &b));
    assert!(frontier.contains(&a));
    assert!(!frontier.contains(&s.move_left().unwrap()));
    assert_eq!(frontier.pop_min().unwrap().f, 3);
    assert!(!frontier.contains(&a));
    assert_eq!(frontier.pop_min().unwrap().f, 5);
    assert_eq!(frontier.pop_min().unwrap().f, 7);
    assert!(frontier.pop_min().is_none());
    assert_eq!(frontier.current_priority(&s), None);
}
